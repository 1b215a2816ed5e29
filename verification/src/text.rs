use vstd::prelude::*;

verus! {

/// The character data of a text node.
#[derive(Debug, PartialEq, Clone)]
pub struct TextData {
    pub(crate) value: String,
}

impl View for TextData {
    type V = Seq<char>;

    closed spec fn view(&self) -> Seq<char> {
        self.value@
    }
}

impl Default for TextData {
    fn default() -> (r: Self)
        ensures
            r@ == Seq::<char>::empty(),
    {
        Self::new()
    }
}

impl TextData {
    /// An empty text node.
    pub fn new() -> (r: Self)
        ensures
            r@ == Seq::<char>::empty(),
    {
        Self { value: String::new() }
    }

    /// A text node that holds a copy of `value`.
    pub fn with_value(value: &str) -> (r: Self)
        ensures
            r@ == value@,
    {
        Self { value: value.to_owned() }
    }

    /// The text held by this node.
    pub fn value(&self) -> (r: &str)
        ensures
            r@ == self@,
    {
        self.value.as_str()
    }
}

} // verus!
