use vstd::prelude::*;

verus! {

/// Unicode's `White_Space` property, the set that `char::is_whitespace` and
/// `str::trim` go by.
pub open spec fn is_white_space(c: char) -> bool {
    let u = c as u32;
    ||| 0x9 <= u <= 0xD
    ||| u == 0x20
    ||| u == 0x85
    ||| u == 0xA0
    ||| u == 0x1680
    ||| 0x2000 <= u <= 0x200A
    ||| u == 0x2028
    ||| u == 0x2029
    ||| u == 0x202F
    ||| u == 0x205F
    ||| u == 0x3000
}

/// Whether `c` is white space in the sense of Unicode's `White_Space`
/// property.
pub fn is_white_space_char(c: char) -> (r: bool)
    ensures
        r == is_white_space(c),
{
    let u = c as u32;
    (0x9 <= u && u <= 0xD) || u == 0x20 || u == 0x85 || u == 0xA0 || u == 0x1680 || (0x2000
        <= u && u <= 0x200A) || u == 0x2028 || u == 0x2029 || u == 0x202F || u == 0x205F || u
        == 0x3000
}


/// `String::push`: std documents it as appending the one character to the end
/// of the string.
pub assume_specification[ String::push ](s: &mut String, ch: char)
    ensures
        final(s)@ == old(s)@.push(ch),
;

/// A line break shown as a space, so that a text node prints on one line.
pub open spec fn flatten_char(c: char) -> char {
    if c == '\n' {
        ' '
    } else {
        c
    }
}

/// `s` with every line break replaced by a space.
pub open spec fn flatten_lines(s: Seq<char>) -> Seq<char> {
    s.map_values(|c: char| flatten_char(c))
}

/// `s` without its leading white space.
pub open spec fn trim_start(s: Seq<char>) -> Seq<char>
    decreases s.len(),
{
    if s.len() > 0 && is_white_space(s[0]) {
        trim_start(s.drop_first())
    } else {
        s
    }
}

/// `s` without its trailing white space.
pub open spec fn trim_end(s: Seq<char>) -> Seq<char>
    decreases s.len(),
{
    if s.len() > 0 && is_white_space(s.last()) {
        trim_end(s.drop_last())
    } else {
        s
    }
}

/// `s` without white space at either end, as `str::trim` gives it.
pub open spec fn trimmed(s: Seq<char>) -> Seq<char> {
    trim_end(trim_start(s))
}

/// What `trim_start` keeps is a suffix of `s` that, unless empty, starts with
/// a character that is not white space.
proof fn lemma_trim_start_suffix(s: Seq<char>) -> (k: int)
    ensures
        0 <= k <= s.len(),
        trim_start(s) == s.subrange(k, s.len() as int),
        trim_start(s).len() > 0 ==> !is_white_space(trim_start(s)[0]),
        forall|i: int| 0 <= i < k ==> is_white_space(s[i]),
    decreases s.len(),
{
    if s.len() > 0 && is_white_space(s[0]) {
        let k = lemma_trim_start_suffix(s.drop_first());
        assert(s.drop_first().subrange(k, s.len() - 1) =~= s.subrange(k + 1, s.len() as int));
        assert forall|i: int| 0 <= i < k + 1 implies is_white_space(s[i]) by {
            if i > 0 {
                assert(s[i] == s.drop_first()[i - 1]);
            }
        }
        k + 1
    } else {
        assert(s.subrange(0, s.len() as int) =~= s);
        0
    }
}

/// What `trim_end` keeps is a prefix of `s` that, unless empty, ends with a
/// character that is not white space.
proof fn lemma_trim_end_prefix(s: Seq<char>) -> (m: int)
    ensures
        0 <= m <= s.len(),
        trim_end(s) == s.subrange(0, m),
        trim_end(s).len() > 0 ==> !is_white_space(trim_end(s).last()),
        forall|i: int| m <= i < s.len() ==> is_white_space(s[i]),
    decreases s.len(),
{
    if s.len() > 0 && is_white_space(s.last()) {
        let m = lemma_trim_end_prefix(s.drop_last());
        assert(s.drop_last().subrange(0, m) =~= s.subrange(0, m));
        assert forall|i: int| m <= i < s.len() implies is_white_space(s[i]) by {
            if i < s.len() - 1 {
                assert(s[i] == s.drop_last()[i]);
            }
        }
        m
    } else {
        assert(s.subrange(0, s.len() as int) =~= s);
        s.len() as int
    }
}

/// The label of a text node holds no line break and, unless it is empty,
/// neither starts nor ends with white space; it is a stretch of the text in
/// which each line break has become a space.
pub proof fn lemma_text_label_single_line(text: Seq<char>)
    ensures
        forall|i: int| 0 <= i < text_label_of(text).len() ==> text_label_of(text)[i] != '\n',
        text_label_of(text).len() > 0 ==> !is_white_space(text_label_of(text)[0])
            && !is_white_space(text_label_of(text).last()),
        exists|a: int, b: int|
            0 <= a <= b <= text.len() && text_label_of(text) == flatten_lines(
                text.subrange(a, b),
            ),
{
    let flat = flatten_lines(text);
    let k = lemma_trim_start_suffix(flat);
    let front = trim_start(flat);
    let m = lemma_trim_end_prefix(front);
    let label = text_label_of(text);
    assert(label == flat.subrange(k, k + m));
    assert(flatten_lines(text.subrange(k, k + m)) =~= label);
    if label.len() > 0 {
        assert(label[0] == front[0]);
    }
}

/// `label` is `text[a..b]` with each line break shown as a space, where
/// everything before `a` and from `b` on is white space and, unless the
/// stretch is empty, the characters at `a` and `b - 1` are not.
pub open spec fn is_trimmed_stretch(text: Seq<char>, label: Seq<char>, a: int, b: int) -> bool {
    &&& 0 <= a <= b <= text.len()
    &&& forall|i: int| 0 <= i < a ==> is_white_space(#[trigger] text[i])
    &&& forall|i: int| b <= i < text.len() ==> is_white_space(#[trigger] text[i])
    &&& a < b ==> !is_white_space(text[a]) && !is_white_space(text[b - 1])
    &&& label.len() == b - a
    &&& forall|i: int|
        0 <= i < b - a ==> #[trigger] label[i] == (if text[a + i] == '\n' {
            ' '
        } else {
            text[a + i]
        })
}

/// The label of a text node is all of the text between its first and its last
/// character that is not white space, with each line break shown as a space.
/// So a one-line text without white space at its ends is its own label.
pub proof fn lemma_text_label_is_trimmed_text(text: Seq<char>)
    ensures
        exists|a: int, b: int| is_trimmed_stretch(text, text_label_of(text), a, b),
        (forall|i: int| 0 <= i < text.len() ==> text[i] != '\n') && (text.len() > 0
            ==> !is_white_space(text[0]) && !is_white_space(text.last())) ==> text_label_of(text)
            == text,
{
    let flat = flatten_lines(text);
    let k = lemma_trim_start_suffix(flat);
    let front = trim_start(flat);
    let m = lemma_trim_end_prefix(front);
    let label = text_label_of(text);
    assert(label =~= flat.subrange(k, k + m));
    assert forall|i: int| 0 <= i < text.len() implies is_white_space(flat[i]) == is_white_space(
        text[i],
    ) by {
        assert(flat[i] == flatten_char(text[i]));
    }
    assert forall|i: int| k + m <= i < text.len() implies is_white_space(#[trigger] text[i]) by {
        assert(flat[i] == front[i - k]);
        assert(is_white_space(flat[i]));
    }
    assert forall|i: int| 0 <= i < k implies is_white_space(#[trigger] text[i]) by {
        assert(is_white_space(flat[i]));
    }
    if k < k + m {
        assert(label[0] == front[0]);
        assert(label[0] == flat[k]);
        assert(label.last() == flat[k + m - 1]);
        assert(!is_white_space(flat[k]));
        assert(!is_white_space(flat[k + m - 1]));
    }
    assert forall|i: int| 0 <= i < m implies #[trigger] label[i] == (if text[k + i] == '\n' {
        ' '
    } else {
        text[k + i]
    }) by {
        assert(label[i] == flat[k + i]);
        assert(flat[k + i] == flatten_char(text[k + i]));
    }
    assert(is_trimmed_stretch(text, label, k, k + m));
    if (forall|i: int| 0 <= i < text.len() ==> text[i] != '\n') && (text.len() > 0
        ==> !is_white_space(text[0]) && !is_white_space(text.last())) {
        if text.len() > 0 {
            if k > 0 {
                assert(is_white_space(text[0]));
            }
            if k + m < text.len() {
                assert(is_white_space(text[text.len() - 1]));
            }
        }
        assert forall|i: int| 0 <= i < text.len() implies label[i] == text[i] by {
            assert(label[i] == flat[i]);
            assert(flat[i] == flatten_char(text[i]));
        }
        assert(label =~= text);
    }
}

/// The label under which the outline shows a text node.
pub open spec fn text_label_of(text: Seq<char>) -> Seq<char> {
    trimmed(flatten_lines(text))
}

/// The label under which the tree outline shows a text node: its text on a
/// single line (each line break becomes a space), without white space at
/// either end.
pub fn text_label(text: &str) -> (r: String)
    ensures
        r@ == text_label_of(text@),
{
    let ghost flat = flatten_lines(text@);
    let mut chars: Vec<char> = Vec::new();
    for c in it: text.chars()
        invariant
            flat == flatten_lines(text@),
            it.seq() == text@,
            chars@ =~= flat.take(it.index()),
    {
        chars.push(if c == '\n' { ' ' } else { c });
    }
    let n = chars.len();
    assert(chars@ =~= flat);
    let mut start: usize = 0;
    while start < n && is_white_space_char(chars[start])
        invariant
            n == flat.len(),
            chars@ == flat,
            start <= n,
            trim_start(flat) == trim_start(flat.subrange(start as int, n as int)),
        decreases n - start,
    {
        assert(flat.subrange(start as int, n as int).drop_first() =~= flat.subrange(
            start + 1,
            n as int,
        ));
        start = start + 1;
    }
    assert(flat.subrange(start as int, n as int) == trim_start(flat));
    let ghost front = flat.subrange(start as int, n as int);
    let mut end: usize = n;
    while end > start && is_white_space_char(chars[end - 1])
        invariant
            n == flat.len(),
            chars@ == flat,
            start <= end <= n,
            front == flat.subrange(start as int, n as int),
            trim_end(front) == trim_end(flat.subrange(start as int, end as int)),
        decreases end - start,
    {
        assert(flat.subrange(start as int, end as int).drop_last() =~= flat.subrange(
            start as int,
            end - 1,
        ));
        end = end - 1;
    }
    let ghost kept = flat.subrange(start as int, end as int);
    assert(trim_end(kept) == kept);
    let mut r = String::new();
    let mut i: usize = start;
    while i < end
        invariant
            chars@ == flat,
            start <= i <= end <= n,
            n == flat.len(),
            r@ =~= flat.subrange(start as int, i as int),
        decreases end - i,
    {
        r.push(chars[i]);
        i = i + 1;
    }
    r
}


/// The text that follows an element's name in its outline label: each
/// attribute as ` key="value"`, in the order given.
pub open spec fn attributes_text(attributes: Seq<(Seq<char>, Seq<char>)>) -> Seq<char>
    decreases attributes.len(),
{
    if attributes.len() == 0 {
        Seq::empty()
    } else {
        let (key, value) = attributes.last();
        attributes_text(attributes.drop_last()) + " "@ + key + "=\""@ + value + "\""@
    }
}

/// The outline label of an element: `<name key="value" ...>`.
pub open spec fn element_label_of(name: Seq<char>, attributes: Seq<(Seq<char>, Seq<char>)>) -> Seq<
    char,
> {
    "<"@ + name + attributes_text(attributes) + ">"@
}

/// Every attribute shows in the label, whatever its value (an empty value
/// too): adding one attribute at the end adds exactly ` key="value"`, and no
/// attributes show as nothing. The label is the name in angle brackets with
/// that text inside, so its length is `2 + |name|` plus `|key| + |value| + 4`
/// for each attribute.
pub proof fn lemma_every_attribute_shown(
    name: Seq<char>,
    attributes: Seq<(Seq<char>, Seq<char>)>,
    key: Seq<char>,
    value: Seq<char>,
)
    ensures
        attributes_text(Seq::empty()) == Seq::<char>::empty(),
        attributes_text(attributes.push((key, value))) == attributes_text(attributes) + " "@ + key
            + "=\""@ + value + "\""@,
        attributes_text(attributes.push((key, value))).len() == attributes_text(attributes).len()
            + key.len() + value.len() + 4,
        element_label_of(name, attributes) == "<"@ + name + attributes_text(attributes) + ">"@,
        element_label_of(name, attributes).len() == name.len() + attributes_text(attributes).len()
            + 2,
{
    reveal_strlit(" ");
    reveal_strlit("=\"");
    reveal_strlit("\"");
    reveal_strlit("<");
    reveal_strlit(">");
    assert(attributes.push((key, value)).drop_last() =~= attributes);
}

/// The views of a list of attribute pairs.
pub open spec fn attribute_views(attributes: Seq<(String, String)>) -> Seq<(Seq<char>, Seq<char>)> {
    attributes.map_values(|a: (String, String)| (a.0@, a.1@))
}

/// The label under which the tree outline shows an element: its name in
/// angle brackets, with each attribute as ` key="value"` in the order given.
pub fn element_label(name: &str, attributes: &Vec<(String, String)>) -> (r: String)
    ensures
        r@ == element_label_of(name@, attribute_views(attributes@)),
{
    let ghost views = attribute_views(attributes@);
    let mut r = "<".to_owned();
    r.append(name);
    let mut i: usize = 0;
    while i < attributes.len()
        invariant
            i <= attributes.len(),
            views == attribute_views(attributes@),
            r@ =~= "<"@ + name@ + attributes_text(views.take(i as int)),
        decreases attributes.len() - i,
    {
        assert(views.take(i + 1).drop_last() =~= views.take(i as int));
        r.append(" ");
        r.append(attributes[i].0.as_str());
        r.append("=\"");
        r.append(attributes[i].1.as_str());
        r.append("\"");
        i = i + 1;
    }
    assert(views.take(attributes.len() as int) =~= views);
    r.append(">");
    r
}


/// The branch drawn in front of a node of the outline: a tee when more
/// siblings follow it, a corner for the last child.
pub open spec fn branch_of(has_sibling: bool) -> Seq<char> {
    if has_sibling {
        "├── "@
    } else {
        "└── "@
    }
}

/// What a node's children are indented by, beyond the node's own indent: a
/// rule that carries on down to later siblings, or blank space under the
/// last child.
pub open spec fn indent_of(has_sibling: bool) -> Seq<char> {
    if has_sibling {
        "│   "@
    } else {
        "    "@
    }
}

/// The branch drawn in front of a node of the outline.
pub fn branch_marker(has_sibling: bool) -> (r: &'static str)
    ensures
        r@ == branch_of(has_sibling),
{
    if has_sibling {
        "├── "
    } else {
        "└── "
    }
}

/// Whether the child at `index` of a node with `child_count` children has a
/// sibling after it, that is, whether it is not the last child.
pub fn child_has_sibling(index: usize, child_count: usize) -> (r: bool)
    requires
        index < child_count,
    ensures
        r == (index + 1 < child_count),
{
    index < child_count - 1
}

/// The indent of a node's children: the node's own indent `lines`, extended
/// by one level, which is four characters wide.
pub fn child_indent(lines: String, has_sibling: bool) -> (r: String)
    ensures
        r@ == lines@ + indent_of(has_sibling),
        r@.len() == lines@.len() + 4,
{
    proof {
        reveal_strlit("│   ");
        reveal_strlit("    ");
    }
    let mut r = lines;
    if has_sibling {
        r.append("│   ");
    } else {
        r.append("    ");
    }
    r
}

} // verus!
