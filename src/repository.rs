//! Provider-neutral repository records, their canonical paths and the
//! deduplication that turns fetched records into a repository set.

use vstd::prelude::*;

verus! {

/// A repository on some hosting provider.
#[derive(Debug, Clone, PartialEq, Eq)]
pub struct Repository {
    pub provider: String,
    pub owner: String,
    pub repo_name: String,
    pub ssh_url: String,
}

/// The mathematical value of a [`Repository`]: its four fields as text.
pub struct RepositoryView {
    pub provider: Seq<char>,
    pub owner: Seq<char>,
    pub repo_name: Seq<char>,
    pub ssh_url: Seq<char>,
}

impl View for Repository {
    type V = RepositoryView;

    open spec fn view(&self) -> RepositoryView {
        RepositoryView {
            provider: self.provider@,
            owner: self.owner@,
            repo_name: self.repo_name@,
            ssh_url: self.ssh_url@,
        }
    }
}

/// The views of a sequence of repositories.
pub open spec fn views(s: Seq<Repository>) -> Seq<RepositoryView> {
    s.map_values(|r: Repository| r@)
}

/// The canonical path `provider/owner/repo_name` of a repository.
pub open spec fn rel_path(r: RepositoryView) -> Seq<char> {
    r.provider + seq!['/'] + r.owner + seq!['/'] + r.repo_name
}

/// Lexicographic order on text, comparing characters by code point.
pub open spec fn text_lt(a: Seq<char>, b: Seq<char>) -> bool
    decreases a.len(),
{
    if b.len() == 0 {
        false
    } else if a.len() == 0 {
        true
    } else if a[0] != b[0] {
        (a[0] as u32) < (b[0] as u32)
    } else {
        text_lt(a.drop_first(), b.drop_first())
    }
}

pub proof fn lemma_text_lt_irreflexive(a: Seq<char>)
    ensures
        !text_lt(a, a),
    decreases a.len(),
{
    if a.len() > 0 {
        lemma_text_lt_irreflexive(a.drop_first());
    }
}

pub proof fn lemma_text_lt_total(a: Seq<char>, b: Seq<char>)
    ensures
        a != b ==> text_lt(a, b) || text_lt(b, a),
        !(text_lt(a, b) && text_lt(b, a)),
    decreases a.len(),
{
    if a.len() > 0 && b.len() > 0 && a[0] == b[0] {
        lemma_text_lt_total(a.drop_first(), b.drop_first());
        if a != b {
            assert(a =~= seq![a[0]] + a.drop_first());
            assert(b =~= seq![b[0]] + b.drop_first());
        }
    } else if a.len() == 0 && b.len() == 0 {
        assert(a =~= b);
    } else if a.len() > 0 && b.len() > 0 {
        vstd::utf8::char_u32_cast(a[0], a[0] as u32);
        vstd::utf8::char_u32_cast(b[0], b[0] as u32);
    }
}

pub proof fn lemma_text_lt_transitive(a: Seq<char>, b: Seq<char>, c: Seq<char>)
    requires
        text_lt(a, b),
        text_lt(b, c),
    ensures
        text_lt(a, c),
    decreases a.len(),
{
    if a.len() > 0 && a[0] == b[0] && b[0] == c[0] {
        lemma_text_lt_transitive(a.drop_first(), b.drop_first(), c.drop_first());
    }
}

/// Keys strictly increase along the sequence: sorted, and no two share a canonical path.
pub open spec fn strictly_sorted(s: Seq<RepositoryView>) -> bool {
    forall|i: int, j: int|
        0 <= i < j < s.len() ==> #[trigger] text_lt(rel_path(s[i]), rel_path(s[j]))
}

/// Adds `x` to the strictly sorted `acc` at its place by canonical path,
/// unless a repository with the same canonical path is already there.
pub open spec fn insert_unique(acc: Seq<RepositoryView>, x: RepositoryView) -> Seq<RepositoryView>
    decreases acc.len(),
{
    if acc.len() == 0 {
        seq![x]
    } else if rel_path(acc[0]) == rel_path(x) {
        acc
    } else if text_lt(rel_path(x), rel_path(acc[0])) {
        seq![x] + acc
    } else {
        seq![acc[0]] + insert_unique(acc.drop_first(), x)
    }
}

/// The repository set made of `s`: sorted by canonical path, and of the
/// repositories sharing a canonical path only the first one kept.
pub open spec fn dedup(s: Seq<RepositoryView>) -> Seq<RepositoryView>
    decreases s.len(),
{
    if s.len() == 0 {
        Seq::empty()
    } else {
        insert_unique(dedup(s.drop_last()), s.last())
    }
}

proof fn lemma_insert_unique_sorted(acc: Seq<RepositoryView>, x: RepositoryView)
    requires
        strictly_sorted(acc),
    ensures
        strictly_sorted(insert_unique(acc, x)),
        forall|i: int|
            0 <= i < insert_unique(acc, x).len() ==> {
                let k = rel_path(#[trigger] insert_unique(acc, x)[i]);
                k == rel_path(x) || exists|j: int| 0 <= j < acc.len() && k == rel_path(acc[j])
            },
    decreases acc.len(),
{
    if acc.len() == 0 {
    } else if rel_path(acc[0]) == rel_path(x) {
    } else if text_lt(rel_path(x), rel_path(acc[0])) {
        let r = seq![x] + acc;
        assert forall|i: int, j: int| 0 <= i < j < r.len() implies #[trigger] text_lt(
            rel_path(r[i]),
            rel_path(r[j]),
        ) by {
            if i == 0 && j > 1 {
                assert(text_lt(rel_path(acc[0]), rel_path(acc[j - 1])));
                lemma_text_lt_transitive(rel_path(x), rel_path(acc[0]), rel_path(acc[j - 1]));
            }
        }
        assert forall|i: int| 0 <= i < r.len() implies {
            let k = rel_path(#[trigger] r[i]);
            k == rel_path(x) || exists|j: int| 0 <= j < acc.len() && k == rel_path(acc[j])
        } by {
            if i > 0 {
                assert(rel_path(r[i]) == rel_path(acc[i - 1]));
            }
        }
    } else {
        let tail = acc.drop_first();
        assert(strictly_sorted(tail)) by {
            assert forall|i: int, j: int| 0 <= i < j < tail.len() implies #[trigger] text_lt(
                rel_path(tail[i]),
                rel_path(tail[j]),
            ) by {
                assert(text_lt(rel_path(acc[i + 1]), rel_path(acc[j + 1])));
            }
        }
        lemma_insert_unique_sorted(tail, x);
        lemma_text_lt_total(rel_path(x), rel_path(acc[0]));
        let ins = insert_unique(tail, x);
        let r = seq![acc[0]] + ins;
        assert forall|i: int| 0 <= i < r.len() implies {
            let k = rel_path(#[trigger] r[i]);
            k == rel_path(x) || exists|j: int| 0 <= j < acc.len() && k == rel_path(acc[j])
        } by {
            if i == 0 {
                assert(rel_path(r[0]) == rel_path(acc[0]));
            } else {
                assert(r[i] == ins[i - 1]);
                let k = rel_path(ins[i - 1]);
                if k != rel_path(x) {
                    let j = choose|j: int| 0 <= j < tail.len() && k == rel_path(tail[j]);
                    assert(k == rel_path(acc[j + 1]));
                }
            }
        }
        assert forall|i: int, j: int| 0 <= i < j < r.len() implies #[trigger] text_lt(
            rel_path(r[i]),
            rel_path(r[j]),
        ) by {
            if i == 0 {
                assert(r[j] == ins[j - 1]);
                let k = rel_path(ins[j - 1]);
                if k == rel_path(x) {
                } else {
                    let m = choose|m: int| 0 <= m < tail.len() && k == rel_path(tail[m]);
                    assert(text_lt(rel_path(acc[0]), rel_path(acc[m + 1])));
                }
            } else {
                assert(r[i] == ins[i - 1]);
                assert(r[j] == ins[j - 1]);
                assert(text_lt(rel_path(ins[i - 1]), rel_path(ins[j - 1])));
            }
        }
    }
}

/// A deduplicated sequence is strictly sorted by canonical path.
pub proof fn lemma_dedup_sorted(s: Seq<RepositoryView>)
    ensures
        strictly_sorted(dedup(s)),
    decreases s.len(),
{
    if s.len() > 0 {
        lemma_dedup_sorted(s.drop_last());
        lemma_insert_unique_sorted(dedup(s.drop_last()), s.last());
    }
}

/// Inserting a repository whose canonical path is above all others appends it.
proof fn lemma_insert_unique_greatest(acc: Seq<RepositoryView>, x: RepositoryView)
    requires
        forall|i: int| 0 <= i < acc.len() ==> #[trigger] text_lt(rel_path(acc[i]), rel_path(x)),
    ensures
        insert_unique(acc, x) == acc.push(x),
    decreases acc.len(),
{
    if acc.len() > 0 {
        assert(text_lt(rel_path(acc[0]), rel_path(x)));
        lemma_text_lt_irreflexive(rel_path(x));
        lemma_text_lt_total(rel_path(acc[0]), rel_path(x));
        let tail = acc.drop_first();
        assert forall|i: int| 0 <= i < tail.len() implies #[trigger] text_lt(
            rel_path(tail[i]),
            rel_path(x),
        ) by {
            assert(text_lt(rel_path(acc[i + 1]), rel_path(x)));
        }
        lemma_insert_unique_greatest(tail, x);
        assert(seq![acc[0]] + tail.push(x) =~= acc.push(x));
    }
}

/// Inserting a repository whose canonical path is below all others prepends it.
pub proof fn lemma_insert_unique_least(acc: Seq<RepositoryView>, x: RepositoryView)
    requires
        acc.len() > 0 ==> text_lt(rel_path(x), rel_path(acc[0])),
    ensures
        insert_unique(acc, x) == seq![x] + acc,
{
    if acc.len() > 0 {
        lemma_text_lt_irreflexive(rel_path(x));
    }
}

/// Deduplicating a sequence that is already strictly sorted leaves it as it is.
pub proof fn lemma_dedup_of_sorted(s: Seq<RepositoryView>)
    requires
        strictly_sorted(s),
    ensures
        dedup(s) == s,
    decreases s.len(),
{
    if s.len() > 0 {
        let init = s.drop_last();
        assert(strictly_sorted(init)) by {
            assert forall|i: int, j: int| 0 <= i < j < init.len() implies #[trigger] text_lt(
                rel_path(init[i]),
                rel_path(init[j]),
            ) by {
                assert(text_lt(rel_path(s[i]), rel_path(s[j])));
            }
        }
        lemma_dedup_of_sorted(init);
        assert forall|i: int| 0 <= i < init.len() implies #[trigger] text_lt(
            rel_path(init[i]),
            rel_path(s.last()),
        ) by {
            assert(text_lt(rel_path(s[i]), rel_path(s[s.len() - 1])));
        }
        lemma_insert_unique_greatest(init, s.last());
        assert(init.push(s.last()) =~= s);
    }
}

/// Deduplication is idempotent: deduplicating a repository set a second time
/// changes nothing.
pub proof fn lemma_dedup_idempotent(s: Seq<RepositoryView>)
    ensures
        dedup(dedup(s)) == dedup(s),
{
    lemma_dedup_sorted(s);
    lemma_dedup_of_sorted(dedup(s));
}

/// Where the first canonical path that is not below that of `x` stands,
/// `insert_unique` either finds `x`'s path there or inserts `x` there.
proof fn lemma_insert_unique_at(acc: Seq<RepositoryView>, x: RepositoryView, i: int)
    requires
        0 <= i <= acc.len(),
        forall|j: int| 0 <= j < i ==> #[trigger] text_lt(rel_path(acc[j]), rel_path(x)),
        i < acc.len() ==> !text_lt(rel_path(acc[i]), rel_path(x)),
    ensures
        insert_unique(acc, x) == if i < acc.len() && rel_path(acc[i]) == rel_path(x) {
            acc
        } else {
            acc.insert(i, x)
        },
    decreases acc.len(),
{
    if i == 0 {
        if acc.len() > 0 {
            lemma_text_lt_total(rel_path(acc[0]), rel_path(x));
        }
        assert(seq![x] + acc =~= acc.insert(0, x));
    } else {
        assert(text_lt(rel_path(acc[0]), rel_path(x)));
        lemma_text_lt_irreflexive(rel_path(x));
        lemma_text_lt_total(rel_path(acc[0]), rel_path(x));
        let tail = acc.drop_first();
        assert forall|j: int| 0 <= j < i - 1 implies #[trigger] text_lt(
            rel_path(tail[j]),
            rel_path(x),
        ) by {
            assert(text_lt(rel_path(acc[j + 1]), rel_path(x)));
        }
        lemma_insert_unique_at(tail, x, i - 1);
        if i < acc.len() && rel_path(acc[i]) == rel_path(x) {
            assert(seq![acc[0]] + tail =~= acc);
        } else {
            assert(seq![acc[0]] + tail.insert(i - 1, x) =~= acc.insert(i, x));
        }
    }
}

/// Relies on `str`'s `PartialOrd::lt`, which orders strings lexicographically
/// by code point.
#[verifier::external_body]
fn str_lt(a: &str, b: &str) -> (r: bool)
    ensures
        r == text_lt(a@, b@),
{
    a < b
}

impl Repository {
    /// The canonical path `provider/owner/repo_name`.
    pub fn to_rel_path(&self) -> (r: String)
        ensures
            r@ == rel_path(self@),
    {
        let mut path = self.provider.clone();
        path.append("/");
        path.append(self.owner.as_str());
        path.append("/");
        path.append(self.repo_name.as_str());
        proof {
            reveal_strlit("/");
        }
        path
    }

    /// A field-for-field copy.
    pub fn duplicate(&self) -> (r: Repository)
        ensures
            r@ == self@,
    {
        Repository {
            provider: self.provider.clone(),
            owner: self.owner.clone(),
            repo_name: self.repo_name.clone(),
            ssh_url: self.ssh_url.clone(),
        }
    }
}

/// Adds `x` to the strictly sorted `acc` unless its canonical path is there already.
pub(crate) fn insert_unique_into(acc: &mut Vec<Repository>, x: Repository)
    requires
        strictly_sorted(views(old(acc)@)),
    ensures
        views(final(acc)@) == insert_unique(views(old(acc)@), x@),
        strictly_sorted(views(final(acc)@)),
{
    proof {
        lemma_insert_unique_sorted(views(acc@), x@);
    }
    let key = x.to_rel_path();
    let mut i: usize = 0;
    while i < acc.len()
        invariant
            0 <= i <= acc.len(),
            key@ == rel_path(x@),
            forall|j: int| 0 <= j < i ==> #[trigger] text_lt(rel_path(acc@[j]@), key@),
        ensures
            0 <= i <= acc.len(),
            forall|j: int| 0 <= j < i ==> #[trigger] text_lt(rel_path(acc@[j]@), key@),
            i < acc.len() ==> !text_lt(rel_path(acc@[i as int]@), key@),
        decreases acc.len() - i,
    {
        let k = acc[i].to_rel_path();
        if !str_lt(k.as_str(), key.as_str()) {
            break;
        }
        i = i + 1;
    }
    let ghost before = views(acc@);
    proof {
        assert forall|j: int| 0 <= j < i implies #[trigger] text_lt(
            rel_path(before[j]),
            rel_path(x@),
        ) by {
            assert(text_lt(rel_path(acc@[j]@), key@));
        }
        lemma_insert_unique_at(before, x@, i as int);
    }
    if i < acc.len() {
        let k = acc[i].to_rel_path();
        if k == key {
            return;
        }
    }
    acc.insert(i, x);
    proof {
        assert(views(acc@) =~= before.insert(i as int, x@));
    }
}

/// Sorting and deduplication of a list of fetched repositories.
pub trait VecRepositoryExt: Sized {
    /// The repositories held, as views.
    spec fn repositories(&self) -> Seq<RepositoryView>;

    /// Sorts by canonical path and keeps, of the repositories that share a
    /// canonical path, the first one.
    fn collect_unique(&mut self)
        ensures
            final(self).repositories() == dedup(old(self).repositories()),
    ;
}

impl VecRepositoryExt for Vec<Repository> {
    open spec fn repositories(&self) -> Seq<RepositoryView> {
        views(self@)
    }

    fn collect_unique(&mut self) {
        let mut acc: Vec<Repository> = Vec::new();
        let n = self.len();
        for i in 0..n
            invariant
                n == self@.len(),
                views(acc@) == dedup(views(self@.subrange(0, i as int))),
                strictly_sorted(views(acc@)),
        {
            proof {
                let pre = views(self@.subrange(0, i as int + 1));
                assert(pre.drop_last() =~= views(self@.subrange(0, i as int)));
                assert(pre.last() == self@[i as int]@);
            }
            insert_unique_into(&mut acc, self[i].duplicate());
        }
        proof {
            assert(self@.subrange(0, n as int) =~= self@);
        }
        *self = acc;
    }
}

} // verus!
