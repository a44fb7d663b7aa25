//! Stable sorting of listing entries by name, size or date.
use vstd::prelude::*;

use crate::dir::{views, DirEntry, EntryView};
use crate::state::SortField;
use crate::text::{chars_of, digit_char, digits_w, lemma_digit_char_order, lowercase, pow10, to_lowercase};

verus! {

broadcast use vstd::seq_lib::group_to_multiset_ensures;

/// Lexicographic order of character sequences by code point: -1, 0 or 1.
/// On valid text this is the order `String` comparison gives, since UTF-8
/// byte order follows code point order.
pub open spec fn seq_order(a: Seq<char>, b: Seq<char>) -> int
    decreases a.len(),
{
    if a.len() == 0 {
        if b.len() == 0 {
            0
        } else {
            -1
        }
    } else if b.len() == 0 {
        1
    } else if a[0] < b[0] {
        -1
    } else if a[0] > b[0] {
        1
    } else {
        seq_order(a.drop_first(), b.drop_first())
    }
}

pub open spec fn int_order(a: int, b: int) -> int {
    if a < b {
        -1
    } else if a > b {
        1
    } else {
        0
    }
}

/// `None` before every time; times by value.
pub open spec fn time_order(a: Option<i128>, b: Option<i128>) -> int {
    match (a, b) {
        (None, None) => 0,
        (None, Some(_)) => -1,
        (Some(_), None) => 1,
        (Some(x), Some(y)) => int_order(x as int, y as int),
    }
}

/// How two entries compare on the sort field: names ignoring case, sizes,
/// modification times.
pub open spec fn key_order(a: EntryView, b: EntryView, field: SortField) -> int {
    match field {
        SortField::Name => seq_order(lowercase(a.name), lowercase(b.name)),
        SortField::Size => int_order(a.size as int, b.size as int),
        SortField::Date => time_order(a.modified, b.modified),
    }
}

/// The comparison a sort in the given direction uses.
pub open spec fn entry_order(a: EntryView, b: EntryView, field: SortField, ascending: bool) -> int {
    if ascending {
        key_order(a, b, field)
    } else {
        -key_order(a, b, field)
    }
}

/// `out` is `input` sorted stably: it is `input` rearranged by the positions
/// `p`, in order of the comparison, entries that compare equal keeping their
/// original relative order.
pub open spec fn stable_sorted_with(
    input: Seq<EntryView>,
    out: Seq<EntryView>,
    field: SortField,
    ascending: bool,
    p: Seq<int>,
) -> bool {
    &&& p.len() == input.len()
    &&& out.len() == input.len()
    &&& forall|i: int| 0 <= i < p.len() ==> 0 <= #[trigger] p[i] < input.len()
    &&& forall|i: int, j: int| 0 <= i < j < p.len() ==> p[i] != p[j]
    &&& forall|i: int| 0 <= i < out.len() ==> #[trigger] out[i] == input[p[i]]
    &&& forall|i: int, j: int|
        #![trigger out[i], out[j]]
        0 <= i < j < out.len() ==> {
            ||| entry_order(out[i], out[j], field, ascending) < 0
            ||| (entry_order(out[i], out[j], field, ascending) == 0 && p[i] < p[j])
        }
}

pub open spec fn stable_sorted(
    input: Seq<EntryView>,
    out: Seq<EntryView>,
    field: SortField,
    ascending: bool,
) -> bool {
    exists|p: Seq<int>| stable_sorted_with(input, out, field, ascending, p)
}

proof fn lemma_seq_order_antisym(a: Seq<char>, b: Seq<char>)
    ensures
        seq_order(a, b) == -seq_order(b, a),
        -1 <= seq_order(a, b) <= 1,
        seq_order(a, b) == 0 <==> a == b,
    decreases a.len(),
{
    if a.len() == 0 || b.len() == 0 {
        if a.len() == 0 && b.len() == 0 {
            assert(a =~= b);
        }
    } else if a[0] == b[0] {
        lemma_seq_order_antisym(a.drop_first(), b.drop_first());
        assert(a =~= seq![a[0]] + a.drop_first());
        assert(b =~= seq![b[0]] + b.drop_first());
        if a == b {
            assert(a.drop_first() =~= b.drop_first());
        }
    } else {
        assert(a != b);
    }
}

proof fn lemma_seq_order_trans(a: Seq<char>, b: Seq<char>, c: Seq<char>)
    requires
        seq_order(a, b) <= 0,
        seq_order(b, c) <= 0,
    ensures
        seq_order(a, c) <= 0,
        seq_order(a, b) < 0 || seq_order(b, c) < 0 ==> seq_order(a, c) < 0,
    decreases a.len(),
{
    lemma_seq_order_antisym(a, b);
    lemma_seq_order_antisym(b, c);
    lemma_seq_order_antisym(a, c);
    if a.len() > 0 && b.len() > 0 && c.len() > 0 {
        if a[0] == b[0] && b[0] == c[0] {
            lemma_seq_order_trans(a.drop_first(), b.drop_first(), c.drop_first());
        }
    }
}

pub proof fn lemma_key_order_props(a: EntryView, b: EntryView, c: EntryView, field: SortField)
    ensures
        key_order(a, b, field) == -key_order(b, a, field),
        -1 <= key_order(a, b, field) <= 1,
        key_order(a, b, field) <= 0 && key_order(b, c, field) <= 0 ==> key_order(a, c, field)
            <= 0,
        key_order(a, b, field) <= 0 && key_order(b, c, field) <= 0 && (key_order(a, b, field) < 0
            || key_order(b, c, field) < 0) ==> key_order(a, c, field) < 0,
{
    match field {
        SortField::Name => {
            let (x, y, z) = (lowercase(a.name), lowercase(b.name), lowercase(c.name));
            lemma_seq_order_antisym(x, y);
            if seq_order(x, y) <= 0 && seq_order(y, z) <= 0 {
                lemma_seq_order_trans(x, y, z);
            }
        },
        SortField::Size => {},
        SortField::Date => {},
    }
}

/// The strict order the index sort uses: by entry order, ties broken by position.
pub open spec fn before(es: Seq<EntryView>, field: SortField, ascending: bool, i: int, j: int) -> bool {
    let o = entry_order(es[i], es[j], field, ascending);
    o < 0 || (o == 0 && i < j)
}

/// Non-strict version: `j` does not come strictly before `i`.
pub open spec fn not_after(es: Seq<EntryView>, field: SortField, ascending: bool, i: int, j: int) -> bool {
    !before(es, field, ascending, j, i)
}

proof fn lemma_before_props(es: Seq<EntryView>, field: SortField, ascending: bool, i: int, j: int, k: int)
    ensures
        not_after(es, field, ascending, i, j) && not_after(es, field, ascending, j, k) ==> not_after(
            es,
            field,
            ascending,
            i,
            k,
        ),
        not_after(es, field, ascending, i, j) || not_after(es, field, ascending, j, i),
        i != j && not_after(es, field, ascending, i, j) ==> before(es, field, ascending, i, j),
{
    lemma_key_order_props(es[i], es[j], es[k], field);
    lemma_key_order_props(es[j], es[k], es[i], field);
    lemma_key_order_props(es[k], es[i], es[j], field);
    lemma_key_order_props(es[j], es[i], es[k], field);
    lemma_key_order_props(es[i], es[k], es[j], field);
    lemma_key_order_props(es[k], es[j], es[i], field);
}

pub open spec fn sorted_idx(es: Seq<EntryView>, field: SortField, ascending: bool, s: Seq<usize>) -> bool {
    forall|x: int, y: int|
        #![trigger s[x], s[y]]
        0 <= x < y < s.len() ==> not_after(es, field, ascending, s[x] as int, s[y] as int)
}

pub open spec fn idx_in_range(s: Seq<usize>, n: nat) -> bool {
    forall|x: int| 0 <= x < s.len() ==> #[trigger] s[x] < n
}

/// Lower-cased names, one per entry (only needed when sorting by name).
pub open spec fn lowers_ok(es: Seq<EntryView>, lowers: Seq<Vec<char>>, field: SortField) -> bool {
    field == SortField::Name ==> {
        &&& lowers.len() == es.len()
        &&& forall|k: int| 0 <= k < es.len() ==> (#[trigger] lowers[k])@ == lowercase(es[k].name)
    }
}

fn order_chars(a: &Vec<char>, b: &Vec<char>) -> (r: i8)
    ensures
        r as int == seq_order(a@, b@),
{
    let mut i: usize = 0;
    assert(a@.skip(0) =~= a@);
    assert(b@.skip(0) =~= b@);
    loop
        invariant
            0 <= i <= a@.len(),
            i <= b@.len(),
            seq_order(a@, b@) == seq_order(a@.skip(i as int), b@.skip(i as int)),
        decreases a@.len() - i,
    {
        let ghost sa = a@.skip(i as int);
        let ghost sb = b@.skip(i as int);
        if i == a.len() {
            if i == b.len() {
                return 0;
            }
            return -1;
        }
        if i == b.len() {
            return 1;
        }
        let ca: char = a[i];
        let cb: char = b[i];
        assert(sa[0] == a@[i as int] && sb[0] == b@[i as int]);
        if ca < cb {
            return -1;
        }
        if ca > cb {
            return 1;
        }
        assert(sa.drop_first() =~= a@.skip(i + 1));
        assert(sb.drop_first() =~= b@.skip(i + 1));
        i = i + 1;
    }
}

fn order_at(
    es: &Vec<DirEntry>,
    lowers: &Vec<Vec<char>>,
    field: SortField,
    ascending: bool,
    i: usize,
    j: usize,
) -> (r: i8)
    requires
        i < views(es@).len(),
        j < views(es@).len(),
        lowers_ok(views(es@), lowers@, field),
    ensures
        r as int == entry_order(views(es@)[i as int], views(es@)[j as int], field, ascending),
{
    let k: i8 = match field {
        SortField::Name => order_chars(&lowers[i], &lowers[j]),
        SortField::Size => {
            if es[i].size < es[j].size {
                -1
            } else if es[i].size > es[j].size {
                1
            } else {
                0
            }
        },
        SortField::Date => {
            match (es[i].modified, es[j].modified) {
                (None, None) => 0,
                (None, Some(_)) => -1,
                (Some(_), None) => 1,
                (Some(x), Some(y)) => {
                    if x < y {
                        -1
                    } else if x > y {
                        1
                    } else {
                        0
                    }
                },
            }
        },
    };
    proof {
        lemma_key_order_props(views(es@)[i as int], views(es@)[j as int], views(es@)[j as int], field);
    }
    if ascending {
        k
    } else {
        -k
    }
}

fn merge(
    es: &Vec<DirEntry>,
    lowers: &Vec<Vec<char>>,
    field: SortField,
    ascending: bool,
    a: Vec<usize>,
    b: Vec<usize>,
) -> (r: Vec<usize>)
    requires
        lowers_ok(views(es@), lowers@, field),
        idx_in_range(a@, views(es@).len()),
        idx_in_range(b@, views(es@).len()),
        sorted_idx(views(es@), field, ascending, a@),
        sorted_idx(views(es@), field, ascending, b@),
    ensures
        idx_in_range(r@, views(es@).len()),
        sorted_idx(views(es@), field, ascending, r@),
        r@.to_multiset() == a@.to_multiset().add(b@.to_multiset()),
{
    let mut out: Vec<usize> = Vec::new();
    let mut i: usize = 0;
    let mut j: usize = 0;
    while i < a.len() || j < b.len()
        invariant
            0 <= i <= a@.len(),
            0 <= j <= b@.len(),
            lowers_ok(views(es@), lowers@, field),
            idx_in_range(a@, views(es@).len()),
            idx_in_range(b@, views(es@).len()),
            idx_in_range(out@, views(es@).len()),
            sorted_idx(views(es@), field, ascending, a@),
            sorted_idx(views(es@), field, ascending, b@),
            sorted_idx(views(es@), field, ascending, out@),
            out@.to_multiset() == a@.take(i as int).to_multiset().add(
                b@.take(j as int).to_multiset(),
            ),
            out@.len() > 0 && i < a@.len() ==> not_after(
                views(es@),
                field,
                ascending,
                out@.last() as int,
                a@[i as int] as int,
            ),
            out@.len() > 0 && j < b@.len() ==> not_after(
                views(es@),
                field,
                ascending,
                out@.last() as int,
                b@[j as int] as int,
            ),
        decreases a@.len() + b@.len() - i - j,
    {
        let take_a: bool = if i == a.len() {
            false
        } else if j == b.len() {
            true
        } else {
            let o = order_at(es, lowers, field, ascending, b[j], a[i]);
            !(o < 0 || (o == 0 && b[j] < a[i]))
        };
        let ghost old_out = out@;
        if take_a {
            let x = a[i];
            proof {
                if j < b@.len() {
                    lemma_before_props(views(es@), field, ascending, x as int, b@[j as int] as int, 0);
                }
                assert forall|p: int| 0 <= p < old_out.len() implies not_after(
                    views(es@),
                    field,
                    ascending,
                    old_out[p] as int,
                    x as int,
                ) by {
                    lemma_before_props(
                        views(es@),
                        field,
                        ascending,
                        old_out[p] as int,
                        old_out.last() as int,
                        x as int,
                    );
                }
                if i + 1 < a@.len() {
                    assert(not_after(views(es@), field, ascending, a@[i as int] as int, a@[i + 1] as int));
                }
                assert(a@.take(i + 1) =~= a@.take(i as int).push(x));
            }
            out.push(x);
            i = i + 1;
        } else {
            let x = b[j];
            proof {
                if i < a@.len() {
                    lemma_before_props(views(es@), field, ascending, x as int, a@[i as int] as int, 0);
                }
                assert forall|p: int| 0 <= p < old_out.len() implies not_after(
                    views(es@),
                    field,
                    ascending,
                    old_out[p] as int,
                    x as int,
                ) by {
                    lemma_before_props(
                        views(es@),
                        field,
                        ascending,
                        old_out[p] as int,
                        old_out.last() as int,
                        x as int,
                    );
                }
                if j + 1 < b@.len() {
                    assert(not_after(views(es@), field, ascending, b@[j as int] as int, b@[j + 1] as int));
                }
                assert(b@.take(j + 1) =~= b@.take(j as int).push(x));
            }
            out.push(x);
            j = j + 1;
        }
        proof {
            assert forall|x: int, y: int| 0 <= x < y < out@.len() implies not_after(
                views(es@),
                field,
                ascending,
                out@[x] as int,
                out@[y] as int,
            ) by {
                if y < old_out.len() {
                    assert(out@[x] == old_out[x] && out@[y] == old_out[y]);
                }
            }
        }
    }
    assert(a@.take(a@.len() as int) =~= a@);
    assert(b@.take(b@.len() as int) =~= b@);
    out
}

fn sort_idx(
    es: &Vec<DirEntry>,
    lowers: &Vec<Vec<char>>,
    field: SortField,
    ascending: bool,
    lo: usize,
    hi: usize,
) -> (r: Vec<usize>)
    requires
        lo <= hi <= views(es@).len(),
        lowers_ok(views(es@), lowers@, field),
    ensures
        idx_in_range(r@, views(es@).len()),
        sorted_idx(views(es@), field, ascending, r@),
        r@.to_multiset() == Seq::new((hi - lo) as nat, |k: int| (lo + k) as usize).to_multiset(),
    decreases hi - lo,
{
    if hi - lo <= 1 {
        let mut v: Vec<usize> = Vec::new();
        if hi - lo == 1 {
            v.push(lo);
        }
        assert(v@ =~= Seq::new((hi - lo) as nat, |k: int| (lo + k) as usize));
        return v;
    }
    let mid: usize = lo + (hi - lo) / 2;
    let a = sort_idx(es, lowers, field, ascending, lo, mid);
    let b = sort_idx(es, lowers, field, ascending, mid, hi);
    let r = merge(es, lowers, field, ascending, a, b);
    proof {
        let whole = Seq::new((hi - lo) as nat, |k: int| (lo + k) as usize);
        let left = Seq::new((mid - lo) as nat, |k: int| (lo + k) as usize);
        let right = Seq::new((hi - mid) as nat, |k: int| (mid + k) as usize);
        assert(whole =~= left + right);
        vstd::seq_lib::lemma_multiset_commutative(left, right);
    }
    r
}


/// The lower-cased names of all entries when sorting by name; nothing otherwise.
pub fn lowered_names(es: &Vec<DirEntry>, field: SortField) -> (r: Vec<Vec<char>>)
    ensures
        lowers_ok(views(es@), r@, field),
{
    let mut out: Vec<Vec<char>> = Vec::new();
    if field != SortField::Name {
        return out;
    }
    let mut k: usize = 0;
    while k < es.len()
        invariant
            0 <= k <= views(es@).len(),
            field == SortField::Name,
            out@.len() == k,
            forall|m: int| 0 <= m < k ==> (#[trigger] out@[m])@ == lowercase(es@[m].name@),
        decreases views(es@).len() - k,
    {
        let low = to_lowercase(es[k].name.as_str());
        out.push(chars_of(low.as_str()));
        k = k + 1;
    }
    out
}

proof fn lemma_range_perm(r: Seq<usize>, lo: usize, hi: usize)
    requires
        lo <= hi,
        r.to_multiset() == Seq::new((hi - lo) as nat, |k: int| (lo + k) as usize).to_multiset(),
    ensures
        r.len() == hi - lo,
        r.no_duplicates(),
        forall|i: int| 0 <= i < r.len() ==> lo <= #[trigger] r[i] < hi,
{
    let range = Seq::new((hi - lo) as nat, |k: int| (lo + k) as usize);
    assert(range.no_duplicates());
    range.lemma_multiset_has_no_duplicates();
    r.lemma_multiset_has_no_duplicates_conv();
    assert(r.len() == r.to_multiset().len());
    assert forall|i: int| 0 <= i < r.len() implies lo <= #[trigger] r[i] < hi by {
        assert(r.contains(r[i]));
        assert(range.to_multiset().count(r[i]) > 0);
        assert(range.contains(r[i]));
    }
}

/// The entries `lo..hi` of `es`, sorted stably by `field` in the given direction.
pub fn sorted_segment(
    es: &Vec<DirEntry>,
    lowers: &Vec<Vec<char>>,
    field: SortField,
    ascending: bool,
    lo: usize,
    hi: usize,
) -> (r: Vec<DirEntry>)
    requires
        lo <= hi <= views(es@).len(),
        lowers_ok(views(es@), lowers@, field),
    ensures
        stable_sorted(views(es@).subrange(lo as int, hi as int), views(r@), field, ascending),
{
    let idx = sort_idx(es, lowers, field, ascending, lo, hi);
    proof {
        lemma_range_perm(idx@, lo, hi);
    }
    let mut out: Vec<DirEntry> = Vec::new();
    let mut k: usize = 0;
    while k < idx.len()
        invariant
            0 <= k <= idx@.len(),
            idx@.len() == hi - lo,
            hi <= views(es@).len(),
            forall|i: int| 0 <= i < idx@.len() ==> lo <= #[trigger] idx@[i] < hi,
            out@.len() == k,
            forall|i: int| 0 <= i < k ==> #[trigger] out@[i] == es@[idx@[i] as int],
        decreases idx@.len() - k,
    {
        let e = es[idx[k]].clone();
        out.push(e);
        k = k + 1;
    }
    proof {
        let input = views(es@).subrange(lo as int, hi as int);
        let vo = views(out@);
        let p = Seq::new(idx@.len(), |i: int| idx@[i] - lo);
        assert forall|i: int, j: int| 0 <= i < j < vo.len() implies {
            ||| entry_order(vo[i], vo[j], field, ascending) < 0
            ||| (entry_order(vo[i], vo[j], field, ascending) == 0 && p[i] < p[j])
        } by {
            assert(not_after(views(es@), field, ascending, idx@[i] as int, idx@[j] as int));
            lemma_before_props(views(es@), field, ascending, idx@[i] as int, idx@[j] as int, 0);
        }
        assert(stable_sorted_with(input, vo, field, ascending, p));
    }
    out
}

/// `e` stands somewhere in `s`.
pub open spec fn occurs_in(s: Seq<EntryView>, e: EntryView) -> bool {
    exists|i: int| 0 <= i < s.len() && s[i] == e
}

/// Sorting only rearranges: the output has the input's length, and every
/// entry of the input stands somewhere in the output (and the other way
/// round), moved there by the sort's permutation.
pub proof fn law_sort_keeps_entries(input: Seq<EntryView>, out: Seq<EntryView>, field: SortField, ascending: bool)
    requires
        stable_sorted(input, out, field, ascending),
    ensures
        out.len() == input.len(),
        forall|j: int| 0 <= j < input.len() ==> occurs_in(out, #[trigger] input[j]),
        forall|i: int| 0 <= i < out.len() ==> occurs_in(input, #[trigger] out[i]),
{
    let p = choose|p: Seq<int>| stable_sorted_with(input, out, field, ascending, p);
    let n = input.len() as int;
    assert(p.no_duplicates()) by {
        assert forall|i: int, j: int| 0 <= i < p.len() && 0 <= j < p.len() && i != j implies p[i] != p[j] by {
            if i < j {
            } else {
            }
        }
    }
    p.unique_seq_to_set();
    vstd::set_lib::lemma_int_range(0, n);
    let range = vstd::set_lib::set_int_range(0, n);
    assert(p.to_set().subset_of(range)) by {
        assert forall|x: int| p.to_set().contains(x) implies range.contains(x) by {
            let i = choose|i: int| 0 <= i < p.len() && p[i] == x;
        }
    }
    vstd::seq_lib::seq_to_set_is_finite(p);
    vstd::set_lib::lemma_subset_equality(p.to_set(), range);
    assert forall|j: int| 0 <= j < input.len() implies occurs_in(out, #[trigger] input[j]) by {
        assert(range.contains(j));
        assert(p.to_set().contains(j));
        let i = choose|i: int| 0 <= i < p.len() && p[i] == j;
        assert(out[i] == input[p[i]]);
    }
    assert forall|i: int| 0 <= i < out.len() implies occurs_in(input, #[trigger] out[i]) by {
        assert(out[i] == input[p[i]]);
    }
}


/// Every entry comes no later than the ones after it.
pub open spec fn in_order(x: Seq<EntryView>, field: SortField, ascending: bool) -> bool {
    forall|i: int, j: int|
        #![trigger x[i], x[j]]
        0 <= i < j < x.len() ==> entry_order(x[i], x[j], field, ascending) <= 0
}

/// What a stable sort gives is in order.
pub proof fn lemma_sorted_in_order(input: Seq<EntryView>, out: Seq<EntryView>, field: SortField, ascending: bool)
    requires
        stable_sorted(input, out, field, ascending),
    ensures
        in_order(out, field, ascending),
{
    let p = choose|p: Seq<int>| stable_sorted_with(input, out, field, ascending, p);
}

/// A stretch of an ordered sequence is ordered.
pub proof fn lemma_in_order_subrange(x: Seq<EntryView>, field: SortField, ascending: bool, a: int, b: int)
    requires
        in_order(x, field, ascending),
        0 <= a <= b <= x.len(),
    ensures
        in_order(x.subrange(a, b), field, ascending),
{
    let y = x.subrange(a, b);
    assert forall|i: int, j: int| 0 <= i < j < y.len() implies entry_order(y[i], y[j], field, ascending) <= 0 by {
        assert(y[i] == x[a + i] && y[j] == x[a + j]);
    }
}

proof fn lemma_increasing_at_least(p: Seq<int>, i: int)
    requires
        0 <= i < p.len(),
        forall|a: int| 0 <= a < p.len() ==> 0 <= #[trigger] p[a],
        forall|a: int, b: int| 0 <= a < b < p.len() ==> #[trigger] p[a] < #[trigger] p[b],
    ensures
        i <= p[i],
    decreases i,
{
    if i > 0 {
        lemma_increasing_at_least(p, i - 1);
        assert(p[i - 1] < p[i]);
    }
}

proof fn lemma_increasing_at_most(p: Seq<int>, i: int)
    requires
        0 <= i < p.len(),
        forall|a: int| 0 <= a < p.len() ==> #[trigger] p[a] < p.len(),
        forall|a: int, b: int| 0 <= a < b < p.len() ==> #[trigger] p[a] < #[trigger] p[b],
    ensures
        p[i] <= i,
    decreases p.len() - i,
{
    if i + 1 < p.len() {
        lemma_increasing_at_most(p, i + 1);
        assert(p[i] < p[i + 1]);
    }
}

/// Sorting stably what is already in order changes nothing.
pub proof fn lemma_resort_in_order(x: Seq<EntryView>, y: Seq<EntryView>, field: SortField, ascending: bool)
    requires
        in_order(x, field, ascending),
        stable_sorted(x, y, field, ascending),
    ensures
        y == x,
{
    let p = choose|p: Seq<int>| stable_sorted_with(x, y, field, ascending, p);
    assert forall|a: int, b: int| 0 <= a < b < p.len() implies #[trigger] p[a] < #[trigger] p[b] by {
        assert(y[a] == x[p[a]] && y[b] == x[p[b]]);
        lemma_key_order_props(x[p[a]], x[p[b]], x[p[a]], field);
        if p[b] < p[a] {
            assert(entry_order(x[p[b]], x[p[a]], field, ascending) <= 0);
        }
        assert(p[a] != p[b]);
    }
    assert forall|i: int| 0 <= i < y.len() implies y[i] == x[i] by {
        lemma_increasing_at_least(p, i);
        lemma_increasing_at_most(p, i);
    }
    assert(y =~= x);
}


/// Comparing two joined sequences whose first parts have the same length:
/// the first parts decide, and the second parts when those are equal.
pub proof fn lemma_seq_order_concat(a: Seq<char>, b: Seq<char>, c: Seq<char>, d: Seq<char>)
    requires
        a.len() == b.len(),
    ensures
        seq_order(a + c, b + d) == if seq_order(a, b) != 0 { seq_order(a, b) } else { seq_order(c, d) },
    decreases a.len(),
{
    lemma_seq_order_antisym(a, b);
    if a.len() == 0 {
        assert(a + c =~= c);
        assert(b + d =~= d);
    } else {
        assert((a + c).drop_first() =~= a.drop_first() + c);
        assert((b + d).drop_first() =~= b.drop_first() + d);
        lemma_seq_order_concat(a.drop_first(), b.drop_first(), c, d);
    }
}

/// Equal sequences compare equal.
pub proof fn lemma_seq_order_same(a: Seq<char>)
    ensures
        seq_order(a, a) == 0,
{
    lemma_seq_order_antisym(a, a);
}

/// Two numbers below ten to the `w`, written with `w` digits, compare as
/// the numbers do.
pub proof fn lemma_digits_order(n: nat, k: nat, w: nat)
    requires
        n < pow10(w),
        k < pow10(w),
    ensures
        seq_order(digits_w(n, w), digits_w(k, w)) == int_order(n as int, k as int),
    decreases w,
{
    if w == 0 {
        assert(n == 0 && k == 0);
    } else {
        let v = (w - 1) as nat;
        assert(n / 10 < pow10(v) && k / 10 < pow10(v));
        lemma_digits_order(n / 10, k / 10, v);
        lemma_digit_char_order(n % 10, k % 10);
        lemma_digits_len(n / 10, v);
        lemma_digits_len(k / 10, v);
        lemma_seq_order_concat(digits_w(n / 10, v), digits_w(k / 10, v), seq![digit_char(n % 10)], seq![digit_char(k % 10)]);
        assert(digits_w(n, w) =~= digits_w(n / 10, v) + seq![digit_char(n % 10)]);
        assert(digits_w(k, w) =~= digits_w(k / 10, v) + seq![digit_char(k % 10)]);
        let (x, y) = (digit_char(n % 10), digit_char(k % 10));
        assert(seq_order(seq![x], seq![y]) == (if x < y { -1int } else if x > y { 1int } else { 0int })) by {
            reveal_with_fuel(seq_order, 2);
            assert(seq![x].drop_first() =~= Seq::<char>::empty());
            assert(seq![y].drop_first() =~= Seq::<char>::empty());
        }
        let (qn, qk, rn, rk) = (n / 10, k / 10, n % 10, k % 10);
        assert(qn < qk ==> n < k) by (nonlinear_arith)
            requires
                n == 10 * qn + rn,
                k == 10 * qk + rk,
                0 <= rn < 10,
                0 <= rk < 10,
        ;
        assert(qk < qn ==> k < n) by (nonlinear_arith)
            requires
                n == 10 * qn + rn,
                k == 10 * qk + rk,
                0 <= rn < 10,
                0 <= rk < 10,
        ;
    }
}

proof fn lemma_digits_len(n: nat, w: nat)
    ensures
        digits_w(n, w).len() == w,
    decreases w,
{
    if w > 0 {
        lemma_digits_len(n / 10, (w - 1) as nat);
    }
}

} // verus!
