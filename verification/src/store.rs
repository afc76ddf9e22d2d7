//! In-memory quote store: an ordered collection of quote records with
//! insert, fetch, range listing, update-in-place with version bump, delete,
//! and full clear. Records are kept ascending by creation time, ids unique.

use vstd::prelude::*;

verus! {

/// A persisted quote record. The id is assigned at creation and immutable;
/// `created_at` (epoch milliseconds) is the ordering key and pagination
/// watermark and never changes; `version` starts at 1 and grows by exactly
/// one on every successful update.
#[derive(Debug)]
pub struct Quote {
    pub id: u128,
    pub author: String,
    pub text: String,
    pub created_at: u64,
    pub version: u64,
}

/// Mathematical image of a quote record.
pub ghost struct QuoteModel {
    pub id: u128,
    pub author: Seq<char>,
    pub text: Seq<char>,
    pub created_at: u64,
    pub version: u64,
}

impl View for Quote {
    type V = QuoteModel;

    open spec fn view(&self) -> QuoteModel {
        QuoteModel {
            id: self.id,
            author: self.author@,
            text: self.text@,
            created_at: self.created_at,
            version: self.version,
        }
    }
}

impl DeepView for Quote {
    type V = QuoteModel;

    open spec fn deep_view(&self) -> QuoteModel {
        self.view()
    }
}

impl Quote {
    /// An owned copy of the record, field for field.
    pub fn duplicate(&self) -> (r: Quote)
        ensures
            r@ == self@,
    {
        Quote {
            id: self.id,
            author: self.author.clone(),
            text: self.text.clone(),
            created_at: self.created_at,
            version: self.version,
        }
    }
}

pub open spec fn contains_id(s: Seq<QuoteModel>, id: u128) -> bool {
    exists|i: int| 0 <= i < s.len() && #[trigger] s[i].id == id
}

/// Index of the first record carrying `id`, or -1.
pub open spec fn find_index(s: Seq<QuoteModel>, id: u128) -> int
    decreases s.len(),
{
    if s.len() == 0 {
        -1
    } else if s[0].id == id {
        0
    } else if find_index(s.drop_first(), id) < 0 {
        -1
    } else {
        1 + find_index(s.drop_first(), id)
    }
}

/// Where a record with creation time `ts` is inserted: after every record
/// at or before `ts`, before the first strictly later one.
pub open spec fn insert_pos(s: Seq<QuoteModel>, ts: u64) -> int
    decreases s.len(),
{
    if s.len() == 0 {
        0
    } else if s[0].created_at > ts {
        0
    } else {
        1 + insert_pos(s.drop_first(), ts)
    }
}

/// Index of the first record with `created_at >= w`; in a store sorted by
/// creation time the records at or after a watermark form a suffix.
pub open spec fn first_ge(s: Seq<QuoteModel>, w: u64) -> int
    decreases s.len(),
{
    if s.len() == 0 {
        0
    } else if s[0].created_at >= w {
        0
    } else {
        1 + first_ge(s.drop_first(), w)
    }
}

pub open spec fn min_int(a: int, b: int) -> int {
    if a < b {
        a
    } else {
        b
    }
}

/// The range query: all records with `created_at >= w`, in store order,
/// truncated to `limit` entries.
pub open spec fn spec_list_from(s: Seq<QuoteModel>, w: u64, limit: int) -> Seq<QuoteModel> {
    let start = first_ge(s, w);
    s.subrange(start, start + min_int(limit, s.len() - start))
}

pub proof fn lemma_find_index(s: Seq<QuoteModel>, id: u128)
    ensures
        contains_id(s, id) ==> 0 <= find_index(s, id) < s.len() && s[find_index(s, id)].id == id
            && (forall|j: int| 0 <= j < find_index(s, id) ==> #[trigger] s[j].id != id),
        !contains_id(s, id) ==> find_index(s, id) == -1,
    decreases s.len(),
{
    if s.len() > 0 && s[0].id != id {
        lemma_find_index(s.drop_first(), id);
        assert(forall|i: int| 0 <= i < s.drop_first().len() ==> #[trigger] s.drop_first()[i] == s[
            i + 1
        ]);
        if contains_id(s, id) {
            let w = choose|i: int| 0 <= i < s.len() && #[trigger] s[i].id == id;
            assert(s.drop_first()[w - 1].id == id);
            assert(contains_id(s.drop_first(), id));
            let f = find_index(s, id);
            assert forall|j: int| 0 <= j < f implies #[trigger] s[j].id != id by {
                if j > 0 {
                    assert(s.drop_first()[j - 1].id != id);
                }
            }
        } else {
            assert(!contains_id(s.drop_first(), id)) by {
                if contains_id(s.drop_first(), id) {
                    let w = choose|i: int|
                        0 <= i < s.drop_first().len() && #[trigger] s.drop_first()[i].id == id;
                    assert(s[w + 1].id == id);
                }
            }
        }
    }
}

/// A scan that has seen no match up to `i` and one at `i` has found the
/// first index.
pub proof fn lemma_find_index_at(s: Seq<QuoteModel>, id: u128, i: int)
    requires
        0 <= i < s.len(),
        forall|j: int| 0 <= j < i ==> #[trigger] s[j].id != id,
        s[i].id == id,
    ensures
        find_index(s, id) == i,
{
    lemma_find_index(s, id);
    let f = find_index(s, id);
    if f < i {
        assert(s[f].id != id);
    }
    if f > i {
        assert(s[i].id != id);
    }
}

pub proof fn lemma_insert_pos_at(s: Seq<QuoteModel>, ts: u64, i: int)
    requires
        0 <= i <= s.len(),
        forall|j: int| 0 <= j < i ==> #[trigger] s[j].created_at <= ts,
        i < s.len() ==> s[i].created_at > ts,
    ensures
        insert_pos(s, ts) == i,
    decreases s.len(),
{
    if s.len() > 0 && s[0].created_at <= ts {
        assert(i > 0);
        assert(forall|j: int| 0 <= j < s.drop_first().len() ==> #[trigger] s.drop_first()[j] == s[
            j + 1
        ]);
        lemma_insert_pos_at(s.drop_first(), ts, i - 1);
    }
}

pub proof fn lemma_first_ge_at(s: Seq<QuoteModel>, w: u64, i: int)
    requires
        0 <= i <= s.len(),
        forall|j: int| 0 <= j < i ==> #[trigger] s[j].created_at < w,
        i < s.len() ==> s[i].created_at >= w,
    ensures
        first_ge(s, w) == i,
    decreases s.len(),
{
    if s.len() > 0 && s[0].created_at < w {
        assert(i > 0);
        assert(forall|j: int| 0 <= j < s.drop_first().len() ==> #[trigger] s.drop_first()[j] == s[
            j + 1
        ]);
        lemma_first_ge_at(s.drop_first(), w, i - 1);
    }
}

/// The durable quote collection: records ascending by `created_at`, ids
/// unique across live records.
pub struct QuoteStore {
    quotes: Vec<Quote>,
}

impl View for QuoteStore {
    type V = Seq<QuoteModel>;

    closed spec fn view(&self) -> Seq<QuoteModel> {
        self.quotes.deep_view()
    }
}

impl QuoteStore {
    /// Records are sorted ascending by creation time and no id repeats.
    pub open spec fn wf(&self) -> bool {
        (forall|i: int, j: int|
            0 <= i < j < self@.len() ==> #[trigger] self@[i].created_at <= #[trigger] self@[
                j
            ].created_at) && (forall|i: int, j: int|
            0 <= i < j < self@.len() ==> #[trigger] self@[i].id != #[trigger] self@[j].id)
    }

    pub fn new() -> (r: QuoteStore)
        ensures
            r@ == Seq::<QuoteModel>::empty(),
            r.wf(),
    {
        let r = QuoteStore { quotes: Vec::new() };
        proof {
            assert(r@ =~= Seq::<QuoteModel>::empty());
        }
        r
    }

    pub fn len(&self) -> (n: usize)
        ensures
            n == self@.len(),
    {
        self.quotes.len()
    }

    /// Index of the record with this id, if one is live.
    fn find_by_id(&self, id: u128) -> (r: Option<usize>)
        ensures
            contains_id(self@, id) ==> (r matches Some(k) && k == find_index(self@, id) && 0 <= k
                < self@.len() && self@[k as int].id == id),
            !contains_id(self@, id) ==> r is None,
    {
        let n = self.quotes.len();
        let mut i: usize = 0;
        while i < n
            invariant
                0 <= i <= n,
                n == self@.len(),
                forall|j: int| 0 <= j < i ==> #[trigger] self@[j].id != id,
            decreases n - i,
        {
            if self.quotes[i].id == id {
                proof {
                    lemma_find_index_at(self@, id, i as int);
                }
                return Some(i);
            }
            i = i + 1;
        }
        proof {
            if contains_id(self@, id) {
                let w = choose|k: int| 0 <= k < self@.len() && #[trigger] self@[k].id == id;
                assert(self@[w].id != id);
            }
        }
        None
    }

    /// Inserts a fresh record with `version == 1` at its place in creation
    /// order, after any record sharing the same timestamp. Returns the
    /// stored record, or `None` without any change if the id is already
    /// live: ids must stay unique.
    pub fn insert(&mut self, id: u128, created_at: u64, author: String, text: String) -> (r: Option<
        Quote,
    >)
        requires
            old(self).wf(),
        ensures
            final(self).wf(),
            contains_id(old(self)@, id) ==> r is None && final(self)@ == old(self)@,
            !contains_id(old(self)@, id) ==> (r matches Some(q) && q@ == (QuoteModel {
                id,
                author: author@,
                text: text@,
                created_at,
                version: 1,
            }) && final(self)@ == old(self)@.insert(insert_pos(old(self)@, created_at), q@)),
    {
        if let Some(_k) = self.find_by_id(id) {
            return None;
        }
        let n = self.quotes.len();
        let mut pos: usize = 0;
        while pos < n && self.quotes[pos].created_at <= created_at
            invariant
                0 <= pos <= n,
                n == self@.len(),
                forall|j: int| 0 <= j < pos ==> #[trigger] self@[j].created_at <= created_at,
            decreases n - pos,
        {
            pos = pos + 1;
        }
        proof {
            lemma_insert_pos_at(self@, created_at, pos as int);
        }
        let q = Quote { id, author, text, created_at, version: 1 };
        let stored = q.duplicate();
        let ghost old_view = self@;
        let ghost qm = q@;
        self.quotes.insert(pos, q);
        proof {
            assert(self@ =~= old_view.insert(pos as int, qm));
            let s = self@;
            assert forall|i: int, j: int| 0 <= i < j < s.len() implies #[trigger] s[i].created_at
                <= #[trigger] s[j].created_at && s[i].id != s[j].id by {
                let oi = if i < pos {
                    i
                } else {
                    i - 1
                };
                let oj = if j < pos {
                    j
                } else {
                    j - 1
                };
                if i != pos && j != pos {
                    assert(s[i] == old_view[oi] && s[j] == old_view[oj]);
                } else if i == pos {
                    assert(s[j] == old_view[oj] && oj >= pos);
                    assert(old_view[oj].created_at > created_at);
                } else {
                    assert(s[i] == old_view[oi] && oi < pos);
                    assert(old_view[oi].created_at <= created_at);
                }
            }
        }
        Some(stored)
    }

    /// Fetch by id.
    pub fn get(&self, id: u128) -> (r: Option<Quote>)
        ensures
            contains_id(self@, id) ==> (r matches Some(q) && q@ == self@[find_index(self@, id)]),
            !contains_id(self@, id) ==> r is None,
    {
        match self.find_by_id(id) {
            Some(k) => Some(self.quotes[k].duplicate()),
            None => None,
        }
    }

    /// All records with `created_at >= watermark`, ascending by creation
    /// time, truncated to `limit` entries. A caller with no watermark asks
    /// for 0, which every record is at or after.
    pub fn list_from(&self, watermark: u64, limit: usize) -> (r: Vec<Quote>)
        requires
            self.wf(),
        ensures
            r.deep_view() == spec_list_from(self@, watermark, limit as int),
            r@.len() <= limit,
    {
        let n = self.quotes.len();
        let mut start: usize = 0;
        while start < n && self.quotes[start].created_at < watermark
            invariant
                0 <= start <= n,
                n == self@.len(),
                forall|j: int| 0 <= j < start ==> #[trigger] self@[j].created_at < watermark,
            decreases n - start,
        {
            start = start + 1;
        }
        proof {
            lemma_first_ge_at(self@, watermark, start as int);
        }
        let mut out: Vec<Quote> = Vec::new();
        let mut i: usize = start;
        while i < n && out.len() < limit
            invariant
                start <= i <= n,
                n == self@.len(),
                i - start == out@.len(),
                out@.len() <= limit,
                out.deep_view() =~= self@.subrange(start as int, i as int),
                i < n || out@.len() == n - start,
            decreases n - i,
        {
            out.push(self.quotes[i].duplicate());
            proof {
                assert(out.deep_view() =~= self@.subrange(start as int, i + 1));
            }
            i = i + 1;
        }
        proof {
            assert(out.deep_view() =~= spec_list_from(self@, watermark, limit as int));
        }
        out
    }

    /// Replaces author and text and bumps the version by exactly one; the
    /// id and `created_at` stay as they are. `None` if the id is not live.
    pub fn update(&mut self, id: u128, author: String, text: String) -> (r: Option<Quote>)
        requires
            old(self).wf(),
            forall|i: int|
                0 <= i < old(self)@.len() && #[trigger] old(self)@[i].id == id ==> old(
                    self,
                )@[i].version < u64::MAX,
        ensures
            final(self).wf(),
            !contains_id(old(self)@, id) ==> r is None && final(self)@ == old(self)@,
            contains_id(old(self)@, id) ==> (r matches Some(q) && q@ == (QuoteModel {
                id,
                author: author@,
                text: text@,
                created_at: old(self)@[find_index(old(self)@, id)].created_at,
                version: (old(self)@[find_index(old(self)@, id)].version + 1) as u64,
            }) && final(self)@ == old(self)@.update(find_index(old(self)@, id), r->Some_0@)),
    {
        let k = match self.find_by_id(id) {
            Some(k) => k,
            None => {
                return None;
            },
        };
        let created_at = self.quotes[k].created_at;
        let version = self.quotes[k].version;
        let ghost old_view = self@;
        let q = Quote { id, author, text, created_at, version: version + 1 };
        let stored = q.duplicate();
        let ghost qm = q@;
        self.quotes[k] = q;
        proof {
            assert(self@ =~= old_view.update(k as int, qm));
        }
        Some(stored)
    }

    /// Removes and returns the record with this id; `None` if none is live.
    pub fn delete(&mut self, id: u128) -> (r: Option<Quote>)
        requires
            old(self).wf(),
        ensures
            final(self).wf(),
            !contains_id(old(self)@, id) ==> r is None && final(self)@ == old(self)@,
            contains_id(old(self)@, id) ==> (r matches Some(q) && q@ == old(self)@[find_index(
                old(self)@,
                id,
            )] && final(self)@ == old(self)@.remove(find_index(old(self)@, id))),
    {
        let k = match self.find_by_id(id) {
            Some(k) => k,
            None => {
                return None;
            },
        };
        let ghost old_view = self@;
        let q = self.quotes.remove(k);
        proof {
            assert(self@ =~= old_view.remove(k as int));
        }
        Some(q)
    }

    /// Removes every record unconditionally: a full reset.
    pub fn clear(&mut self)
        ensures
            final(self)@ == Seq::<QuoteModel>::empty(),
            final(self).wf(),
    {
        self.quotes.clear();
        proof {
            assert(self@ =~= Seq::<QuoteModel>::empty());
        }
    }
}

} // verus!
