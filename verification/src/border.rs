use vstd::prelude::*;

verus! {

/// One side of a box's border.
#[derive(Debug, Clone, Copy, PartialEq, Eq)]
pub enum Side {
    Top,
    Right,
    Bottom,
    Left,
}

/// The four sides in drawing order: top, right, bottom, left.
pub open spec fn all_sides() -> Seq<Side> {
    seq![Side::Top, Side::Right, Side::Bottom, Side::Left]
}

/// The CSS keyword that names a side.
pub open spec fn side_name(side: Side) -> Seq<char> {
    match side {
        Side::Top => "top"@,
        Side::Right => "right"@,
        Side::Bottom => "bottom"@,
        Side::Left => "left"@,
    }
}

impl Side {
    /// The four sides, in the order in which borders are drawn.
    pub fn all() -> (r: [Side; 4])
        ensures
            r@ == all_sides(),
    {
        [Side::Top, Side::Right, Side::Bottom, Side::Left]
    }

    /// The CSS keyword of this side, as used in property names.
    pub fn to_str(&self) -> (r: &'static str)
        ensures
            r@ == side_name(*self),
    {
        match self {
            Side::Top => "top",
            Side::Right => "right",
            Side::Bottom => "bottom",
            Side::Left => "left",
        }
    }
}


/// Every side occurs in the drawing order exactly once, so each side of a
/// border is drawn once.
pub proof fn lemma_each_side_once(side: Side)
    ensures
        exists|i: int| 0 <= i < all_sides().len() && all_sides()[i] == side,
        forall|i: int, j: int|
            0 <= i < j < all_sides().len() ==> all_sides()[i] != all_sides()[j],
{
    let i: int = match side {
        Side::Top => 0,
        Side::Right => 1,
        Side::Bottom => 2,
        Side::Left => 3,
    };
    assert(all_sides()[i] == side);
}

/// Different sides have different keywords.
pub proof fn lemma_side_names_distinct(a: Side, b: Side)
    ensures
        side_name(a) == side_name(b) ==> a == b,
{
    reveal_strlit("top");
    reveal_strlit("right");
    reveal_strlit("bottom");
    reveal_strlit("left");
    if side_name(a) == side_name(b) && a != b {
        let x = side_name(a);
        let y = side_name(b);
        assert(x.len() == y.len());
        assert(x[0] == y[0]);
    }
}

/// Whether two strings hold the same characters.
pub fn same_text(a: &str, b: &str) -> (r: bool)
    ensures
        r == (a@ == b@),
{
    let n = a.unicode_len();
    if n != b.unicode_len() {
        return false;
    }
    let mut i: usize = 0;
    while i < n
        invariant
            n == a@.len(),
            n == b@.len(),
            i <= n,
            forall|j: int| 0 <= j < i ==> a@[j] == b@[j],
        decreases n - i,
    {
        if a.get_char(i) != b.get_char(i) {
            return false;
        }
        i = i + 1;
    }
    assert(a@ =~= b@);
    true
}

/// The line style of a border, as named by `border-*-style`.
#[derive(Debug, Clone, Copy, PartialEq, Eq)]
pub enum BorderStyle {
    /// The `none` keyword, and also what any unknown value reads as.
    NoBorder,
    Hidden,
    Dotted,
    Dashed,
    Solid,
    Double,
    Groove,
    Ridge,
    Inset,
    Outset,
}

/// The style that a `border-*-style` value names; a value that is no style
/// keyword (the match is exact and case-sensitive) names no border.
pub open spec fn border_style_of(s: Seq<char>) -> BorderStyle {
    if s == "none"@ {
        BorderStyle::NoBorder
    } else if s == "hidden"@ {
        BorderStyle::Hidden
    } else if s == "dotted"@ {
        BorderStyle::Dotted
    } else if s == "dashed"@ {
        BorderStyle::Dashed
    } else if s == "solid"@ {
        BorderStyle::Solid
    } else if s == "double"@ {
        BorderStyle::Double
    } else if s == "groove"@ {
        BorderStyle::Groove
    } else if s == "ridge"@ {
        BorderStyle::Ridge
    } else if s == "inset"@ {
        BorderStyle::Inset
    } else if s == "outset"@ {
        BorderStyle::Outset
    } else {
        BorderStyle::NoBorder
    }
}

/// Each of the ten keywords reads as its own style, and every other value,
/// such as `initial`, `inherit`, `Solid` or the empty string, reads as no
/// border: a value reads as a style other than `NoBorder` only when it is
/// exactly that style's keyword.
pub proof fn lemma_style_keywords(s: Seq<char>)
    ensures
        border_style_of("none"@) == BorderStyle::NoBorder,
        border_style_of("hidden"@) == BorderStyle::Hidden,
        border_style_of("dotted"@) == BorderStyle::Dotted,
        border_style_of("dashed"@) == BorderStyle::Dashed,
        border_style_of("solid"@) == BorderStyle::Solid,
        border_style_of("double"@) == BorderStyle::Double,
        border_style_of("groove"@) == BorderStyle::Groove,
        border_style_of("ridge"@) == BorderStyle::Ridge,
        border_style_of("inset"@) == BorderStyle::Inset,
        border_style_of("outset"@) == BorderStyle::Outset,
        s != "hidden"@ && s != "dotted"@ && s != "dashed"@ && s != "solid"@ && s != "double"@ && s
            != "groove"@ && s != "ridge"@ && s != "inset"@ && s != "outset"@
            ==> border_style_of(s) == BorderStyle::NoBorder,
        border_style_of(s) == BorderStyle::Hidden ==> s == "hidden"@,
        border_style_of(s) == BorderStyle::Dotted ==> s == "dotted"@,
        border_style_of(s) == BorderStyle::Dashed ==> s == "dashed"@,
        border_style_of(s) == BorderStyle::Solid ==> s == "solid"@,
        border_style_of(s) == BorderStyle::Double ==> s == "double"@,
        border_style_of(s) == BorderStyle::Groove ==> s == "groove"@,
        border_style_of(s) == BorderStyle::Ridge ==> s == "ridge"@,
        border_style_of(s) == BorderStyle::Inset ==> s == "inset"@,
        border_style_of(s) == BorderStyle::Outset ==> s == "outset"@,
{
    reveal_strlit("none");
    reveal_strlit("hidden");
    reveal_strlit("dotted");
    reveal_strlit("dashed");
    reveal_strlit("solid");
    reveal_strlit("double");
    reveal_strlit("groove");
    reveal_strlit("ridge");
    reveal_strlit("inset");
    reveal_strlit("outset");
    assert("none"@.len() == 4 && "none"@[0] == 'n' && "none"@[1] == 'o' && "none"@[2] == 'n');
    assert("hidden"@.len() == 6 && "hidden"@[0] == 'h' && "hidden"@[1] == 'i' && "hidden"@[2] == 'd');
    assert("dotted"@.len() == 6 && "dotted"@[0] == 'd' && "dotted"@[1] == 'o' && "dotted"@[2] == 't');
    assert("dashed"@.len() == 6 && "dashed"@[0] == 'd' && "dashed"@[1] == 'a' && "dashed"@[2] == 's');
    assert("solid"@.len() == 5 && "solid"@[0] == 's' && "solid"@[1] == 'o' && "solid"@[2] == 'l');
    assert("double"@.len() == 6 && "double"@[0] == 'd' && "double"@[1] == 'o' && "double"@[2] == 'u');
    assert("groove"@.len() == 6 && "groove"@[0] == 'g' && "groove"@[1] == 'r' && "groove"@[2] == 'o');
    assert("ridge"@.len() == 5 && "ridge"@[0] == 'r' && "ridge"@[1] == 'i' && "ridge"@[2] == 'd');
    assert("inset"@.len() == 5 && "inset"@[0] == 'i' && "inset"@[1] == 'n' && "inset"@[2] == 's');
    assert("outset"@.len() == 6 && "outset"@[0] == 'o' && "outset"@[1] == 'u' && "outset"@[2] == 't');
}

/// Only a dashed border has square caps and only a dotted one round caps;
/// every other style is stroked with butt caps.
pub proof fn lemma_caps_by_style(style: BorderStyle)
    ensures
        cap_of(BorderStyle::Dashed) == StrokeCap::Square,
        cap_of(BorderStyle::Dotted) == StrokeCap::Round,
        style != BorderStyle::Dashed && style != BorderStyle::Dotted ==> cap_of(style)
            == StrokeCap::Butt,
        cap_of(style) == StrokeCap::Square ==> style == BorderStyle::Dashed,
        cap_of(style) == StrokeCap::Round ==> style == BorderStyle::Dotted,
{
}

/// Only dashed and dotted borders are broken lines: dashes three times the
/// border width for dashed, one width for dotted; every other style is drawn
/// as a continuous line.
pub proof fn lemma_dashes_by_style(style: BorderStyle)
    ensures
        dash_factor_of(BorderStyle::Dashed) == Some(3u32),
        dash_factor_of(BorderStyle::Dotted) == Some(1u32),
        dash_factor_of(style) is Some ==> style == BorderStyle::Dashed || style
            == BorderStyle::Dotted,
        style != BorderStyle::Dashed && style != BorderStyle::Dotted ==> dash_factor_of(style)
            == None::<u32>,
{
}

impl BorderStyle {
    /// Reads a `border-*-style` value.
    pub fn from_str(style: &str) -> (r: Self)
        ensures
            r == border_style_of(style@),
    {
        if same_text(style, "none") {
            Self::NoBorder
        } else if same_text(style, "hidden") {
            Self::Hidden
        } else if same_text(style, "dotted") {
            Self::Dotted
        } else if same_text(style, "dashed") {
            Self::Dashed
        } else if same_text(style, "solid") {
            Self::Solid
        } else if same_text(style, "double") {
            Self::Double
        } else if same_text(style, "groove") {
            Self::Groove
        } else if same_text(style, "ridge") {
            Self::Ridge
        } else if same_text(style, "inset") {
            Self::Inset
        } else if same_text(style, "outset") {
            Self::Outset
        } else {
            Self::NoBorder
        }
    }
}


/// The name of the per-side border property `border-<side>-<field>`, such as
/// `border-top-color`.
pub fn border_property(side: Side, field: &str) -> (r: String)
    ensures
        r@ == "border-"@ + side_name(side) + "-"@ + field@,
{
    let mut name = "border-".to_owned();
    name.append(side.to_str());
    name.append("-");
    name.append(field);
    name
}

/// The per-side properties of different sides have different names, so the
/// four sides of a border are styled independently.
pub proof fn lemma_border_property_distinct(a: Side, b: Side, field: Seq<char>)
    ensures
        "border-"@ + side_name(a) + "-"@ + field == "border-"@ + side_name(b) + "-"@ + field ==> a
            == b,
{
    let pa = "border-"@ + side_name(a) + "-"@ + field;
    let pb = "border-"@ + side_name(b) + "-"@ + field;
    if pa == pb {
        let p = "border-"@;
        let t = "-"@ + field;
        assert(pa =~= p + (side_name(a) + t));
        assert(pb =~= p + (side_name(b) + t));
        assert(side_name(a) + t =~= pa.subrange(p.len() as int, pa.len() as int));
        assert(side_name(b) + t =~= pb.subrange(p.len() as int, pb.len() as int));
        let n = side_name(a).len();
        assert(side_name(a) =~= (side_name(a) + t).subrange(0, n as int));
        assert(side_name(b) =~= (side_name(b) + t).subrange(0, n as int));
        lemma_side_names_distinct(a, b);
    }
}

/// How the two ends of a border stroke are finished.
#[derive(Debug, Clone, Copy, PartialEq, Eq)]
pub enum StrokeCap {
    Butt,
    Square,
    Round,
}

/// The cap that a border of the given style is stroked with.
pub open spec fn cap_of(style: BorderStyle) -> StrokeCap {
    match style {
        BorderStyle::Dashed => StrokeCap::Square,
        BorderStyle::Dotted => StrokeCap::Round,
        _ => StrokeCap::Butt,
    }
}

/// For a broken border line, the length of each of the four entries of its
/// dash pattern, as a multiple of the border width; a solid line has none.
pub open spec fn dash_factor_of(style: BorderStyle) -> Option<u32> {
    match style {
        BorderStyle::Dashed => Some(3),
        BorderStyle::Dotted => Some(1),
        _ => None,
    }
}

impl BorderStyle {
    /// The cap of the stroke that draws a border of this style.
    pub fn stroke_cap(&self) -> (r: StrokeCap)
        ensures
            r == cap_of(*self),
    {
        match self {
            BorderStyle::Dashed => StrokeCap::Square,
            BorderStyle::Dotted => StrokeCap::Round,
            _ => StrokeCap::Butt,
        }
    }

    /// The dash pattern of the stroke that draws a border of this style: four
    /// equal entries of the returned multiple of the border width, or no
    /// pattern (a continuous line).
    pub fn dash_factor(&self) -> (r: Option<u32>)
        ensures
            r == dash_factor_of(*self),
    {
        match self {
            BorderStyle::Dashed => Some(3),
            BorderStyle::Dotted => Some(1),
            _ => None,
        }
    }
}

} // verus!
