use vstd::prelude::*;

verus! {

/// The mathematical value of a paste record: four character sequences.
pub struct PasteView {
    pub id: Seq<char>,
    pub title: Seq<char>,
    pub content: Seq<char>,
    pub author_id: Seq<char>,
}

/// A persisted paste record.
///
/// `id` is the store-generated identifier, the sole lookup key, kept in
/// its canonical lowercase hexadecimal form. `title` and `content` are
/// arbitrary client text, accepted verbatim. `author_id` is the derived
/// pseudonymous author identifier, set exactly once at creation and
/// never supplied by a client.
#[derive(Clone, Debug, PartialEq)]
pub struct Paste {
    pub id: String,
    pub title: String,
    pub content: String,
    pub author_id: String,
}

/// The mathematical values of a sequence of paste records.
pub open spec fn views_of(ps: Seq<Paste>) -> Seq<PasteView> {
    ps.map_values(|p: Paste| p@)
}

impl View for Paste {
    type V = PasteView;

    open spec fn view(&self) -> PasteView {
        PasteView {
            id: self.id@,
            title: self.title@,
            content: self.content@,
            author_id: self.author_id@,
        }
    }
}

impl Paste {
    /// An independent copy of the record, equal to it field for field.
    pub fn duplicate(&self) -> (r: Paste)
        ensures
            r@ == self@,
    {
        Paste {
            id: self.id.clone(),
            title: self.title.clone(),
            content: self.content.clone(),
            author_id: self.author_id.clone(),
        }
    }
}

} // verus!
