use vstd::prelude::*;
use crate::author::{derived_id, Deriver};
use crate::error::PasteError;
use crate::hexstr::{all_hex_chars, is_hex_char, is_lower_hex_char, lower_hex, to_lower_hex};
use crate::paste::{views_of, Paste, PasteView};
use mongodb::bson::oid::ObjectId;

verus! {

/// Whether a string is a syntactically well-formed paste identifier:
/// exactly 24 hexadecimal characters, in either case. This is the
/// backing store's accepted identifier format; anything else is a
/// client error that must never reach storage.
pub open spec fn is_object_id(s: Seq<char>) -> bool {
    s.len() == 24 && forall|i: int| 0 <= i < s.len() ==> is_hex_char(#[trigger] s[i])
}

/// Whether a string is a well-formed identifier in canonical form:
/// its hexadecimal letters all lowercase. Stored records keep their
/// identifier in this form, and lookups fold to it, so that the two
/// spellings of one identifier name the same record.
pub open spec fn is_canonical_id(s: Seq<char>) -> bool {
    is_object_id(s) && forall|i: int| 0 <= i < s.len() ==> is_lower_hex_char(#[trigger] s[i])
}

/// Whether some record in `rs` carries the identifier `id`.
pub open spec fn contains_id(rs: Seq<PasteView>, id: Seq<char>) -> bool {
    exists|i: int| 0 <= i < rs.len() && #[trigger] rs[i].id == id
}

/// The records of `rs` whose author identifier is `author`, in storage
/// order.
pub open spec fn by_author(rs: Seq<PasteView>, author: Seq<char>) -> Seq<PasteView>
    decreases rs.len(),
{
    if rs.len() == 0 {
        Seq::empty()
    } else if rs.last().author_id == author {
        by_author(rs.drop_last(), author).push(rs.last())
    } else {
        by_author(rs.drop_last(), author)
    }
}

/// Checks that a lookup identifier is syntactically well-formed per the
/// backing store's identifier format. A rejected identifier is a
/// terminal client error and must not be sent to storage.
pub fn validate_id(id: &str) -> (r: bool)
    ensures
        r == is_object_id(id@),
{
    id.unicode_len() == 24 && all_hex_chars(id)
}

/// Relies on bson::oid::ObjectId::new and ObjectId::to_hex: a freshly
/// generated identifier rendered as its 24-character lowercase
/// hexadecimal form. Generation mixes the clock and per-process random
/// state, so nothing relates two results; only the shape is promised.
/// ObjectId::new panics if the system clock reads before 1970 or past
/// 2106 — an environmental condition no caller can state or test for.
#[verifier::external_body]
fn new_object_id() -> (r: String)
    ensures
        r@.len() == 24,
        forall|i: int| 0 <= i < r@.len() ==> is_lower_hex_char(#[trigger] r@[i]),
{
    ObjectId::new().to_hex()
}

/// An in-memory paste store: one collection of paste records, keyed by
/// their generated identifiers, holding every record ever created, in
/// creation order.
pub struct PasteStore {
    records: Vec<Paste>,
}

impl View for PasteStore {
    type V = Seq<PasteView>;

    closed spec fn view(&self) -> Seq<PasteView> {
        views_of(self.records@)
    }
}

impl PasteStore {
    /// Well-formedness: every stored identifier is well-formed and
    /// canonical, and no two records share an identifier.
    pub open spec fn wf(&self) -> bool {
        &&& forall|i: int| 0 <= i < self@.len() ==> is_canonical_id(#[trigger] self@[i].id)
        &&& forall|i: int, j: int|
            0 <= i < self@.len() && 0 <= j < self@.len() && i != j ==> self@[i].id != self@[j].id
    }

    /// An empty store.
    pub fn new() -> (r: PasteStore)
        ensures
            r.wf(),
            r@ == Seq::<PasteView>::empty(),
    {
        let r = PasteStore { records: Vec::new() };
        proof {
            assert(r@ =~= Seq::<PasteView>::empty());
        }
        r
    }

    fn find_index(&self, id: &String) -> (r: Option<usize>)
        ensures
            match r {
                Some(i) => i < self@.len() && self@[i as int].id == id@,
                None => !contains_id(self@, id@),
            },
    {
        let n = self.records.len();
        let mut i: usize = 0;
        while i < n
            invariant
                n == self@.len(),
                i <= n,
                forall|j: int| 0 <= j < i ==> #[trigger] self@[j].id != id@,
            decreases n - i,
        {
            if self.records[i].id.eq(id) {
                return Some(i);
            }
            i = i + 1;
        }
        None
    }

    /// Inserts a record under an already generated identifier. The
    /// write is accepted exactly when the identifier is well-formed,
    /// canonical, and not yet in use; a refused write leaves the store
    /// unchanged and surfaces as a storage failure, as a backing
    /// collection refusing a duplicate key would. Nothing is ever
    /// partially written.
    pub fn insert_with_id(
        &mut self,
        id: String,
        title: String,
        content: String,
        author_id: String,
    ) -> (r: Result<String, PasteError>)
        requires
            old(self).wf(),
        ensures
            final(self).wf(),
            (is_canonical_id(id@) && !contains_id(old(self)@, id@)) <==> r is Ok,
            r matches Ok(out) ==> out@ == id@ && final(self)@ == old(self)@.push(
                PasteView { id: id@, title: title@, content: content@, author_id: author_id@ },
            ),
            r is Err ==> final(self)@ == old(self)@ && r == Err::<String, PasteError>(
                PasteError::StorageUnavailable,
            ),
    {
        let well_formed = validate_id(id.as_str()) && all_lower(id.as_str());
        if !well_formed {
            return Err(PasteError::StorageUnavailable);
        }
        if let Some(_) = self.find_index(&id) {
            return Err(PasteError::StorageUnavailable);
        }
        let out = id.clone();
        let rec = Paste { id, title, content, author_id };
        let ghost pre = self@;
        self.records.push(rec);
        proof {
            assert(self@ =~= pre.push(rec@));
        }
        Ok(out)
    }

    /// Creates a new paste: generates a fresh identifier, persists the
    /// four fields, and returns the identifier. Succeeds whenever the
    /// generated identifier is fresh; on failure nothing is written and
    /// the failure is surfaced, never swallowed.
    pub fn create(&mut self, title: String, content: String, author_id: String) -> (r: Result<
        String,
        PasteError,
    >)
        requires
            old(self).wf(),
        ensures
            final(self).wf(),
            old(self)@.len() == 0 ==> r is Ok,
            r matches Ok(id) ==> is_canonical_id(id@) && !contains_id(old(self)@, id@)
                && final(self)@ == old(self)@.push(
                PasteView { id: id@, title: title@, content: content@, author_id: author_id@ },
            ),
            r is Err ==> final(self)@ == old(self)@ && r == Err::<String, PasteError>(
                PasteError::StorageUnavailable,
            ),
    {
        let id = new_object_id();
        self.insert_with_id(id, title, content, author_id)
    }

    /// Retrieves the paste with the given identifier. A malformed
    /// identifier is rejected as `InvalidId` before any storage access;
    /// a well-formed identifier that matches no record is the normal
    /// `NotFound` outcome, never a storage error. Lookup is by the
    /// identifier's canonical form, so either spelling of a hexadecimal
    /// letter finds the same record. The returned record is an
    /// independent copy.
    pub fn get_by_id(&self, id: &str) -> (r: Result<Paste, PasteError>)
        requires
            self.wf(),
        ensures
            r is Ok <==> is_object_id(id@) && contains_id(self@, lower_hex(id@)),
            !is_object_id(id@) ==> r == Err::<Paste, PasteError>(PasteError::InvalidId),
            is_object_id(id@) && !contains_id(self@, lower_hex(id@)) ==> r == Err::<
                Paste,
                PasteError,
            >(PasteError::NotFound),
            r matches Ok(p) ==> p@.id == lower_hex(id@) && self@.contains(p@),
    {
        if !validate_id(id) {
            return Err(PasteError::InvalidId);
        }
        let key = to_lower_hex(id);
        match self.find_index(&key) {
            Some(i) => {
                let p = self.records[i].duplicate();
                proof {
                    assert(self@.contains(self@[i as int]));
                }
                Ok(p)
            },
            None => Err(PasteError::NotFound),
        }
    }

    /// Returns every record whose author identifier equals the input,
    /// in storage order, each exactly once, and no others. Any string
    /// is accepted, and an empty result is a normal outcome. The
    /// returned records are independent copies.
    pub fn list_by_author(&self, author_id: &str) -> (r: Vec<Paste>)
        ensures
            views_of(r@) == by_author(self@, author_id@),
    {
        let key = author_id.to_owned();
        let n = self.records.len();
        let mut out: Vec<Paste> = Vec::new();
        let mut i: usize = 0;
        while i < n
            invariant
                n == self@.len(),
                i <= n,
                key@ == author_id@,
                views_of(out@) == by_author(self@.take(i as int), author_id@),
            decreases n - i,
        {
            let ghost pre = out@;
            if self.records[i].author_id.eq(&key) {
                out.push(self.records[i].duplicate());
                proof {
                    assert(views_of(out@) =~= views_of(pre).push(self@[i as int]));
                }
            }
            proof {
                let prefix = self@.take(i + 1);
                assert(prefix.drop_last() =~= self@.take(i as int));
                assert(prefix.last() == self@[i as int]);
                assert(views_of(out@) == by_author(prefix, author_id@));
            }
            i = i + 1;
        }
        proof {
            assert(self@.take(self@.len() as int) =~= self@);
        }
        out
    }
}

fn all_lower(s: &str) -> (r: bool)
    ensures
        r == forall|i: int| 0 <= i < s@.len() ==> is_lower_hex_char(#[trigger] s@[i]),
{
    let n = s.unicode_len();
    let mut i: usize = 0;
    while i < n
        invariant
            n == s@.len(),
            i <= n,
            forall|j: int| 0 <= j < i ==> is_lower_hex_char(#[trigger] s@[j]),
        decreases n - i,
    {
        let c = s.get_char(i);
        let u = c as u32;
        if !((48 <= u && u <= 57) || (97 <= u && u <= 102)) {
            return false;
        }
        i = i + 1;
    }
    true
}

/// A well-formed identifier already in canonical form is unchanged by
/// case folding, so a lookup with a store-generated identifier uses
/// exactly that identifier as its key.
pub proof fn lemma_lower_hex_of_canonical(s: Seq<char>)
    requires
        is_canonical_id(s),
    ensures
        lower_hex(s) == s,
{
    assert(lower_hex(s) =~= s);
}

/// Round-trip: after a create that added `created` under an identifier
/// the store did not hold, any record of the new store that carries
/// that identifier — which is what a lookup of it returns — is
/// `created` itself, title, content and author identifier included.
pub proof fn lemma_create_then_get(pre: Seq<PasteView>, created: PasteView, retrieved: PasteView)
    requires
        !contains_id(pre, created.id),
        pre.push(created).contains(retrieved),
        retrieved.id == created.id,
    ensures
        retrieved == created,
{
    let post = pre.push(created);
    let i = choose|i: int| 0 <= i < post.len() && post[i] == retrieved;
    if i < pre.len() {
        assert(pre[i].id == created.id);
        assert(contains_id(pre, created.id));
    }
}

/// Listing is exact: a record is listed for an author precisely when it
/// stands in the store with that author identifier — no record of
/// another author is ever listed, and no record of this author is
/// missed, however many other authors hold pastes.
pub proof fn lemma_by_author_exact(rs: Seq<PasteView>, author: Seq<char>, p: PasteView)
    ensures
        by_author(rs, author).contains(p) <==> rs.contains(p) && p.author_id == author,
    decreases rs.len(),
{
    if rs.len() > 0 {
        let head = rs.drop_last();
        lemma_by_author_exact(head, author, p);
        assert(rs.contains(p) <==> head.contains(p) || rs.last() == p) by {
            if rs.contains(p) {
                let i = choose|i: int| 0 <= i < rs.len() && rs[i] == p;
                if i < head.len() {
                    assert(head[i] == p);
                }
            }
            if head.contains(p) {
                let i = choose|i: int| 0 <= i < head.len() && head[i] == p;
                assert(rs[i] == p);
            }
            if rs.last() == p {
                assert(rs[rs.len() - 1] == p);
            }
        }
        if rs.last().author_id == author {
            let listed = by_author(head, author).push(rs.last());
            assert(by_author(rs, author).contains(p) <==> by_author(head, author).contains(p)
                || rs.last() == p) by {
                if by_author(rs, author).contains(p) {
                    let i = choose|i: int| 0 <= i < listed.len() && listed[i] == p;
                    if i < by_author(head, author).len() {
                        assert(by_author(head, author)[i] == p);
                    }
                }
                if by_author(head, author).contains(p) {
                    let i = choose|i: int|
                        0 <= i < by_author(head, author).len() && by_author(head, author)[i] == p;
                    assert(listed[i] == p);
                }
                if rs.last() == p {
                    assert(listed[listed.len() - 1] == p);
                }
            }
        }
    }
}

/// Listing repeats nothing: when no two records of the store share an
/// identifier, no identifier appears twice in an author's listing, so
/// every match is returned exactly once.
pub proof fn lemma_by_author_no_repeats(rs: Seq<PasteView>, author: Seq<char>)
    requires
        forall|i: int, j: int|
            0 <= i < rs.len() && 0 <= j < rs.len() && i != j ==> rs[i].id != rs[j].id,
    ensures
        forall|i: int, j: int|
            0 <= i < by_author(rs, author).len() && 0 <= j < by_author(rs, author).len() && i != j
                ==> by_author(rs, author)[i].id != by_author(rs, author)[j].id,
    decreases rs.len(),
{
    if rs.len() > 0 {
        let head = rs.drop_last();
        assert(forall|i: int| 0 <= i < head.len() ==> head[i] == rs[i]);
        lemma_by_author_no_repeats(head, author);
        if rs.last().author_id == author {
            let hl = by_author(head, author);
            let listed = hl.push(rs.last());
            assert forall|k: int| 0 <= k < hl.len() implies hl[k].id != rs.last().id by {
                assert(hl.contains(hl[k]));
                lemma_by_author_exact(head, author, hl[k]);
                let m = choose|m: int| 0 <= m < head.len() && head[m] == hl[k];
                assert(rs[m] == hl[k]);
                assert(rs[m].id != rs[rs.len() - 1].id);
            }
            assert forall|i: int, j: int|
                0 <= i < listed.len() && 0 <= j < listed.len() && i != j implies listed[i].id
                != listed[j].id by {
                if i < hl.len() && j < hl.len() {
                    assert(hl[i].id != hl[j].id);
                }
            }
        }
    }
}

/// A create touches one listing only: the created record is appended to
/// its own author's listing, and the listing of every other author is
/// exactly what it was.
pub proof fn lemma_by_author_after_create(rs: Seq<PasteView>, rec: PasteView, author: Seq<char>)
    ensures
        rec.author_id == author ==> by_author(rs.push(rec), author) == by_author(
            rs,
            author,
        ).push(rec),
        rec.author_id != author ==> by_author(rs.push(rec), author) == by_author(rs, author),
{
    assert(rs.push(rec).drop_last() =~= rs);
    assert(rs.push(rec).last() == rec);
}

/// Handles a create request end to end: refuses it when the submitter's
/// network address is unavailable, otherwise derives the pseudonymous
/// author identifier from the address and the deriver's pepper and
/// persists the paste.
pub fn create_paste(
    store: &mut PasteStore,
    deriver: &Deriver,
    peer_addr: Option<&str>,
    title: String,
    content: String,
) -> (r: Result<String, PasteError>)
    requires
        old(store).wf(),
    ensures
        final(store).wf(),
        peer_addr is Some && old(store)@.len() == 0 ==> r is Ok,
        peer_addr is None ==> r == Err::<String, PasteError>(PasteError::AddressUnavailable)
            && final(store)@ == old(store)@,
        peer_addr matches Some(addr) ==> (r matches Ok(id) ==> is_canonical_id(id@)
            && !contains_id(old(store)@, id@) && final(store)@ == old(store)@.push(
            PasteView {
                id: id@,
                title: title@,
                content: content@,
                author_id: derived_id(addr@, deriver.pepper()),
            },
        )),
        peer_addr is Some && r is Err ==> final(store)@ == old(store)@ && r == Err::<
            String,
            PasteError,
        >(PasteError::StorageUnavailable),
{
    match peer_addr {
        None => Err(PasteError::AddressUnavailable),
        Some(addr) => {
            let author_id = deriver.derive(addr);
            store.create(title, content, author_id)
        },
    }
}

} // verus!
