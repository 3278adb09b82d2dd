//! The books are listed by title: a stable sort in the order of `String`,
//! which compares UTF-8 bytes and so orders titles character by character by
//! code point.

use vstd::prelude::*;

use crate::model::MDBook;

verus! {

/// `a` comes strictly before `b`: at the first position where they differ,
/// `a` has the character with the smaller code point, or `a` is a proper prefix of `b`.
pub open spec fn title_lt(a: Seq<char>, b: Seq<char>) -> bool
    decreases a.len(),
{
    if b.len() == 0 {
        false
    } else if a.len() == 0 {
        true
    } else if a[0] != b[0] {
        a[0] < b[0]
    } else {
        title_lt(a.drop_first(), b.drop_first())
    }
}

/// The order is strict and total: of two different titles exactly one
/// comes first, and no title comes before itself.
pub proof fn lemma_title_lt_total(a: Seq<char>, b: Seq<char>)
    ensures
        !title_lt(a, a),
        title_lt(a, b) ==> !title_lt(b, a),
        a != b ==> title_lt(a, b) || title_lt(b, a),
    decreases a.len(),
{
    if a.len() > 0 && b.len() > 0 {
        lemma_title_lt_total(a.drop_first(), b.drop_first());
        if a[0] == b[0] && a != b {
            assert(a =~= seq![a[0]] + a.drop_first());
            assert(b =~= seq![b[0]] + b.drop_first());
        }
    } else if a.len() == 0 && b.len() == 0 {
        assert(a =~= b);
    }
    if a.len() > 0 {
        lemma_title_lt_total(a.drop_first(), a.drop_first());
    }
}

/// The order is transitive.
pub proof fn lemma_title_lt_transitive(a: Seq<char>, b: Seq<char>, c: Seq<char>)
    requires
        title_lt(a, b),
        title_lt(b, c),
    ensures
        title_lt(a, c),
    decreases a.len(),
{
    if a.len() > 0 && b.len() > 0 && c.len() > 0 {
        if a[0] == b[0] && b[0] == c[0] {
            lemma_title_lt_transitive(a.drop_first(), b.drop_first(), c.drop_first());
        }
    }
}

/// Titles are compared character by character by code point, as `String`
/// compares them: after a common beginning `p`, the title with the smaller
/// next character comes first, whatever follows.
pub proof fn lemma_title_lt_first_difference(p: Seq<char>, c: char, s: Seq<char>, d: char, t: Seq<char>)
    requires
        c < d,
    ensures
        title_lt(p + seq![c] + s, p + seq![d] + t),
        !title_lt(p + seq![d] + t, p + seq![c] + s),
    decreases p.len(),
{
    let a = p + seq![c] + s;
    let b = p + seq![d] + t;
    if p.len() == 0 {
        assert(a[0] == c && b[0] == d);
    } else {
        lemma_title_lt_first_difference(p.drop_first(), c, s, d, t);
        assert(a[0] == p[0] && b[0] == p[0]);
        assert(a.drop_first() =~= p.drop_first() + seq![c] + s);
        assert(b.drop_first() =~= p.drop_first() + seq![d] + t);
    }
}

/// A title comes before every longer title that begins with it.
pub proof fn lemma_title_lt_proper_prefix(p: Seq<char>, c: char, s: Seq<char>)
    ensures
        title_lt(p, p + seq![c] + s),
        !title_lt(p + seq![c] + s, p),
    decreases p.len(),
{
    let b = p + seq![c] + s;
    if p.len() > 0 {
        lemma_title_lt_proper_prefix(p.drop_first(), c, s);
        assert(b[0] == p[0]);
        assert(b.drop_first() =~= p.drop_first() + seq![c] + s);
    }
}

/// Titles in order, ties allowed: no book has a title that comes strictly
/// before that of a book before it.
pub open spec fn sorted_by_title(books: Seq<MDBook>) -> bool {
    forall|i: int, j: int| 0 <= i < j < books.len() ==> !title_lt(books[j].title@, books[i].title@)
}

/// The books titled `t`, in their order in `books`.
pub open spec fn with_title(books: Seq<MDBook>, t: Seq<char>) -> Seq<MDBook>
    decreases books.len(),
{
    if books.len() == 0 {
        Seq::empty()
    } else if books.last().title@ == t {
        with_title(books.drop_last(), t).push(books.last())
    } else {
        with_title(books.drop_last(), t)
    }
}

proof fn lemma_with_title_add(a: Seq<MDBook>, b: Seq<MDBook>, t: Seq<char>)
    ensures
        with_title(a + b, t) == with_title(a, t) + with_title(b, t),
    decreases b.len(),
{
    if b.len() == 0 {
        assert(a + b =~= a);
        assert(with_title(a, t) + with_title(b, t) =~= with_title(a, t));
    } else {
        lemma_with_title_add(a, b.drop_last(), t);
        assert((a + b).drop_last() =~= a + b.drop_last());
        assert((a + b).last() == b.last());
        if b.last().title@ == t {
            assert(with_title(a, t) + with_title(b, t) =~= (with_title(a, t) + with_title(b.drop_last(), t)).push(b.last()));
        }
    }
}

proof fn lemma_with_title_none(s: Seq<MDBook>, t: Seq<char>)
    requires
        forall|k: int| 0 <= k < s.len() ==> s[k].title@ != t,
    ensures
        with_title(s, t) == Seq::<MDBook>::empty(),
    decreases s.len(),
{
    if s.len() > 0 {
        lemma_with_title_none(s.drop_last(), t);
    }
}

proof fn lemma_with_title_single(x: MDBook, t: Seq<char>)
    ensures
        with_title(seq![x], t) == (if x.title@ == t { seq![x] } else { Seq::<MDBook>::empty() }),
{
    assert(seq![x].drop_last() =~= Seq::<MDBook>::empty());
    assert(seq![x].last() == x);
    assert(with_title(seq![x].drop_last(), t) == Seq::<MDBook>::empty());
    if x.title@ == t {
        assert(Seq::<MDBook>::empty().push(x) =~= seq![x]);
    }
}

/// Whether the title `a` comes strictly before `b`.
pub fn title_less(a: &str, b: &str) -> (r: bool)
    ensures
        r == title_lt(a@, b@),
{
    let la = a.unicode_len();
    let lb = b.unicode_len();
    let mut i: usize = 0;
    assert(a@.skip(0) =~= a@);
    assert(b@.skip(0) =~= b@);
    while i < la && i < lb && a.get_char(i) == b.get_char(i)
        invariant
            la == a@.len(),
            lb == b@.len(),
            i <= la,
            i <= lb,
            title_lt(a@, b@) == title_lt(a@.skip(i as int), b@.skip(i as int)),
        decreases la - i,
    {
        assert(a@.skip(i as int).drop_first() =~= a@.skip(i + 1));
        assert(b@.skip(i as int).drop_first() =~= b@.skip(i + 1));
        i = i + 1;
    }
    if i == lb {
        false
    } else if i == la {
        true
    } else {
        let ca = a.get_char(i);
        let cb = b.get_char(i);
        ca < cb
    }
}

/// `r` is `books` sorted by title, stably: the same books, in title order,
/// and the books of each title in the order they have in `books`.
pub open spec fn stable_sort_of(r: Seq<MDBook>, books: Seq<MDBook>) -> bool {
    &&& r.len() == books.len()
    &&& r.to_multiset() == books.to_multiset()
    &&& sorted_by_title(r)
    &&& forall|t: Seq<char>| #[trigger] with_title(r, t) == with_title(books, t)
}

/// Where a book titled `t` goes in the sorted `r`: right after the last book
/// whose title does not come after `t`, or first when there is none.
pub open spec fn insert_position(r: Seq<MDBook>, t: Seq<char>) -> int
    decreases r.len(),
{
    if r.len() == 0 {
        0
    } else if title_lt(t, r.last().title@) {
        insert_position(r.drop_last(), t)
    } else {
        r.len() as int
    }
}

proof fn lemma_sorted_drop_last(r: Seq<MDBook>)
    requires
        r.len() > 0,
        sorted_by_title(r),
    ensures
        sorted_by_title(r.drop_last()),
{
    assert forall|i: int, j: int| 0 <= i < j < r.drop_last().len() implies
        !title_lt(r.drop_last()[j].title@, r.drop_last()[i].title@) by {
        assert(r.drop_last()[j] == r[j] && r.drop_last()[i] == r[i]);
    }
}

/// Before the insert position of `t` come the books whose title is not
/// after `t`; from it on, those whose title is.
proof fn lemma_insert_position(r: Seq<MDBook>, t: Seq<char>)
    requires
        sorted_by_title(r),
    ensures
        0 <= insert_position(r, t) <= r.len(),
        forall|k: int| insert_position(r, t) <= k < r.len() ==> title_lt(t, #[trigger] r[k].title@),
        forall|k: int| 0 <= k < insert_position(r, t) ==> !title_lt(t, #[trigger] r[k].title@),
    decreases r.len(),
{
    if r.len() > 0 {
        let d = r.drop_last();
        lemma_sorted_drop_last(r);
        lemma_insert_position(d, t);
        let last = r.last().title@;
        if title_lt(t, last) {
            assert forall|k: int| insert_position(r, t) <= k < r.len() implies title_lt(t, #[trigger] r[k].title@) by {
                if k < d.len() {
                    assert(r[k] == d[k]);
                }
            }
            assert forall|k: int| 0 <= k < insert_position(r, t) implies !title_lt(t, #[trigger] r[k].title@) by {
                assert(r[k] == d[k]);
            }
        } else {
            assert forall|k: int| 0 <= k < insert_position(r, t) implies !title_lt(t, #[trigger] r[k].title@) by {
                if k < r.len() - 1 && title_lt(t, r[k].title@) {
                    lemma_title_lt_total(r[k].title@, last);
                    if title_lt(r[k].title@, last) {
                        lemma_title_lt_transitive(t, r[k].title@, last);
                    }
                }
            }
        }
    }
}

/// Every book titled `t` in `s` is a book of `s`.
proof fn lemma_with_title_members(s: Seq<MDBook>, t: Seq<char>)
    ensures
        forall|i: int| 0 <= i < with_title(s, t).len() ==> s.contains(#[trigger] with_title(s, t)[i]),
    decreases s.len(),
{
    if s.len() > 0 {
        let d = s.drop_last();
        lemma_with_title_members(d, t);
        assert forall|i: int| 0 <= i < with_title(s, t).len() implies s.contains(#[trigger] with_title(s, t)[i]) by {
            if i < with_title(d, t).len() {
                let e = with_title(d, t)[i];
                assert(with_title(s, t)[i] == e);
                let k = choose|k: int| 0 <= k < d.len() && d[k] == e;
                assert(s[k] == e);
            } else {
                assert(with_title(s, t)[i] == s.last());
                assert(s[s.len() - 1] == s.last());
            }
        }
    }
}

/// Two lists in title order that hold the same books of each title, in the
/// same order, are the same list.
proof fn lemma_sorted_unique(r1: Seq<MDBook>, r2: Seq<MDBook>)
    requires
        sorted_by_title(r1),
        sorted_by_title(r2),
        forall|t: Seq<char>| #[trigger] with_title(r1, t) == with_title(r2, t),
    ensures
        r1 == r2,
    decreases r1.len(),
{
    if r1.len() == 0 && r2.len() == 0 {
        assert(r1 =~= r2);
    } else if r1.len() == 0 {
        assert(with_title(r2, r2.last().title@).len() > 0);
        lemma_with_title_none(r1, r2.last().title@);
    } else if r2.len() == 0 {
        assert(with_title(r1, r1.last().title@).len() > 0);
        lemma_with_title_none(r2, r1.last().title@);
    } else {
        let a = r1.last();
        let c = r2.last();
        lemma_with_title_members(r1, c.title@);
        let w1 = with_title(r1, c.title@);
        assert(w1 == with_title(r2, c.title@));
        assert(w1[w1.len() - 1] == c);
        let k1 = choose|k: int| 0 <= k < r1.len() && r1[k] == w1[w1.len() - 1];
        assert(!title_lt(a.title@, r1[k1].title@)) by {
            lemma_title_lt_total(a.title@, a.title@);
        }
        lemma_with_title_members(r2, a.title@);
        let w2 = with_title(r2, a.title@);
        assert(w2 == with_title(r1, a.title@));
        assert(w2[w2.len() - 1] == a);
        let k2 = choose|k: int| 0 <= k < r2.len() && r2[k] == w2[w2.len() - 1];
        assert(!title_lt(c.title@, r2[k2].title@)) by {
            lemma_title_lt_total(c.title@, c.title@);
        }
        lemma_title_lt_total(a.title@, c.title@);
        let t = a.title@;
        let d1 = r1.drop_last();
        let d2 = r2.drop_last();
        assert(with_title(r1, t) == with_title(d1, t).push(a));
        assert(with_title(r2, t) == with_title(d2, t).push(c));
        assert(with_title(d1, t) =~= with_title(r1, t).drop_last());
        assert(with_title(d2, t) =~= with_title(r2, t).drop_last());
        assert forall|u: Seq<char>| #[trigger] with_title(d1, u) == with_title(d2, u) by {
            if u != t {
                assert(with_title(r1, u) == with_title(d1, u));
                assert(with_title(r2, u) == with_title(d2, u));
            }
        }
        lemma_sorted_drop_last(r1);
        lemma_sorted_drop_last(r2);
        lemma_sorted_unique(d1, d2);
        assert(r1 =~= d1.push(a));
        assert(r2 =~= d2.push(c));
    }
}

/// Putting `x` into a stably sorted `r` at a place with the books whose
/// title is not after that of `x` before it and the others after it gives
/// `books` with `x` appended, stably sorted.
proof fn lemma_insert_keeps_sorted(r: Seq<MDBook>, books: Seq<MDBook>, x: MDBook, j: int)
    requires
        stable_sort_of(r, books),
        0 <= j <= r.len(),
        forall|k: int| j <= k < r.len() ==> title_lt(x.title@, #[trigger] r[k].title@),
        forall|k: int| 0 <= k < j ==> !title_lt(x.title@, #[trigger] r[k].title@),
    ensures
        stable_sort_of(r.insert(j, x), books.push(x)),
{
    let new_r = r.insert(j, x);
    vstd::seq_lib::to_multiset_insert(r, j, x);
    vstd::seq_lib::to_multiset_build(books, x);
    assert(new_r =~= r.take(j) + seq![x] + r.skip(j));
    assert forall|a: int, b: int| 0 <= a < b < new_r.len() implies !title_lt(new_r[b].title@, new_r[a].title@) by {
        if b < j {
            assert(new_r[a] == r[a] && new_r[b] == r[b]);
        } else if b == j {
            assert(new_r[a] == r[a]);
        } else if a == j {
            assert(new_r[b] == r[b - 1]);
            lemma_title_lt_total(x.title@, r[b - 1].title@);
        } else if a < j {
            assert(new_r[a] == r[a] && new_r[b] == r[b - 1]);
        } else {
            assert(new_r[a] == r[a - 1] && new_r[b] == r[b - 1]);
        }
    }
    assert forall|t: Seq<char>| #[trigger] with_title(new_r, t) == with_title(books.push(x), t) by {
        lemma_with_title_add(r.take(j) + seq![x], r.skip(j), t);
        lemma_with_title_add(r.take(j), seq![x], t);
        lemma_with_title_single(x, t);
        lemma_with_title_add(r.take(j), r.skip(j), t);
        assert(r.take(j) + r.skip(j) =~= r);
        assert(books.push(x).drop_last() =~= books);
        assert(with_title(r, t) == with_title(books, t));
        if x.title@ == t {
            assert forall|k: int| 0 <= k < r.skip(j).len() implies r.skip(j)[k].title@ != t by {
                assert(r.skip(j)[k] == r[j + k]);
                lemma_title_lt_total(x.title@, r[j + k].title@);
            }
            lemma_with_title_none(r.skip(j), t);
            assert(with_title(new_r, t) =~= with_title(r.take(j), t).push(x));
            assert(with_title(r, t) =~= with_title(r.take(j), t));
        } else {
            assert(with_title(new_r, t) =~= with_title(r, t));
        }
    }
}

/// A book appended to the list lands, once the list is sorted by title,
/// right after the last book whose title does not come after its own (first
/// when there is none), and every other book keeps its place in the order.
pub proof fn lemma_appended_book_inserted(books: Seq<MDBook>, x: MDBook, r: Seq<MDBook>, r2: Seq<MDBook>)
    requires
        stable_sort_of(r, books),
        stable_sort_of(r2, books.push(x)),
    ensures
        0 <= insert_position(r, x.title@) <= r.len(),
        r2 == r.insert(insert_position(r, x.title@), x),
{
    let p = insert_position(r, x.title@);
    lemma_insert_position(r, x.title@);
    lemma_insert_keeps_sorted(r, books, x, p);
    lemma_sorted_unique(r2, r.insert(p, x));
}

/// The books ordered by title; books with the same title keep their order.
pub fn sort_by_title(books: Vec<MDBook>) -> (r: Vec<MDBook>)
    ensures
        stable_sort_of(r@, books@),
{
    let ghost orig = books@;
    let mut rest = books;
    let mut r: Vec<MDBook> = Vec::new();
    let ghost mut done: Seq<MDBook> = Seq::empty();
    while rest.len() > 0
        invariant
            orig == done + rest@,
            stable_sort_of(r@, done),
        decreases rest@.len(),
    {
        let ghost rest_before = rest@;
        let x = rest.remove(0);
        proof {
            assert(rest_before =~= seq![x] + rest@);
            assert(orig =~= done.push(x) + rest@);
        }
        let mut j: usize = r.len();
        while j > 0 && title_less(x.title.as_str(), r[j - 1].title.as_str())
            invariant
                j <= r@.len(),
                forall|k: int| j <= k < r@.len() ==> title_lt(x.title@, #[trigger] r@[k].title@),
            decreases j,
        {
            j = j - 1;
        }
        let ghost old_r = r@;
        proof {
            // every book before position j has a title not after that of x
            assert forall|k: int| 0 <= k < j implies !title_lt(x.title@, #[trigger] old_r[k].title@) by {
                let p = old_r[j - 1].title@;
                if k < j - 1 && title_lt(x.title@, old_r[k].title@) {
                    lemma_title_lt_total(old_r[k].title@, p);
                    if title_lt(old_r[k].title@, p) {
                        lemma_title_lt_transitive(x.title@, old_r[k].title@, p);
                    }
                }
            }
            lemma_insert_keeps_sorted(old_r, done, x, j as int);
        }
        r.insert(j, x);
        proof {
            done = done.push(x);
        }
    }
    proof {
        assert(done =~= orig);
    }
    r
}

} // verus!
