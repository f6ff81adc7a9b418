//! Text helpers shared across the crate: the code points of a string, decimal
//! numbers as text, and the lexicographic ranking by which rows are listed.

use vstd::prelude::*;
use vstd::string::*;

verus! {

/// The code points of `s`, in order.
pub fn chars_of(s: &str) -> (v: Vec<char>)
    ensures
        v@ == s@,
{
    broadcast use vstd::string::group_string_axioms;

    let mut v: Vec<char> = Vec::new();
    for c in it: s.chars()
        invariant
            it.seq() == s@,
            v@ == it.seq().take(it.index()),
    {
        v.push(c);
    }
    v
}

/// Whether `s` begins with `c`.
pub open spec fn starts_with(s: Seq<char>, c: char) -> bool {
    s.len() > 0 && s[0] == c
}

/// Whether `s` ends in `c`.
pub open spec fn ends_with(s: Seq<char>, c: char) -> bool {
    s.len() > 0 && s[s.len() - 1] == c
}

// ---------------------------------------------------------------------------
// Lexicographic order on keys
// ---------------------------------------------------------------------------

/// Strict lexicographic order: the first position where the keys differ
/// decides, and a proper prefix comes before its extensions.
pub open spec fn lex_lt(a: Seq<u32>, b: Seq<u32>) -> bool
    decreases a.len(),
{
    if b.len() == 0 {
        false
    } else if a.len() == 0 {
        true
    } else if a[0] != b[0] {
        a[0] < b[0]
    } else {
        lex_lt(a.drop_first(), b.drop_first())
    }
}

/// Position `x` comes before position `y` when its key is smaller, or the
/// keys are equal and `x` is the earlier position.
pub open spec fn ranked_before(keys: Seq<Seq<u32>>, x: int, y: int) -> bool {
    lex_lt(keys[x], keys[y]) || (keys[x] == keys[y] && x < y)
}

/// `order` lists every position of `keys` exactly once, smallest key first,
/// equal keys in the order of their positions. There is exactly one such
/// listing.
pub open spec fn is_ranking(keys: Seq<Seq<u32>>, order: Seq<usize>) -> bool {
    &&& order.len() == keys.len()
    &&& forall|i: int| 0 <= i < order.len() ==> (#[trigger] order[i]) < keys.len()
    &&& forall|i: int, j: int|
        0 <= i < j < order.len() ==> ranked_before(keys, order[i] as int, order[j] as int)
}

pub proof fn lemma_lex_irreflexive(a: Seq<u32>)
    ensures
        !lex_lt(a, a),
    decreases a.len(),
{
    if a.len() > 0 {
        lemma_lex_irreflexive(a.drop_first());
    }
}

pub proof fn lemma_lex_asymmetric(a: Seq<u32>, b: Seq<u32>)
    requires
        lex_lt(a, b),
    ensures
        !lex_lt(b, a),
    decreases a.len(),
{
    if a.len() > 0 && b.len() > 0 && a[0] == b[0] {
        lemma_lex_asymmetric(a.drop_first(), b.drop_first());
    }
}

pub proof fn lemma_lex_transitive(a: Seq<u32>, b: Seq<u32>, c: Seq<u32>)
    requires
        lex_lt(a, b),
        lex_lt(b, c),
    ensures
        lex_lt(a, c),
    decreases a.len(),
{
    if a.len() > 0 && b.len() > 0 && c.len() > 0 && a[0] == b[0] && b[0] == c[0] {
        lemma_lex_transitive(a.drop_first(), b.drop_first(), c.drop_first());
    }
}

/// Two different keys are ordered one way or the other.
pub proof fn lemma_lex_total(a: Seq<u32>, b: Seq<u32>)
    ensures
        a == b || lex_lt(a, b) || lex_lt(b, a),
    decreases a.len(),
{
    if a.len() == 0 || b.len() == 0 {
        if a.len() == 0 && b.len() == 0 {
            assert(a =~= b);
        }
    } else if a[0] == b[0] {
        lemma_lex_total(a.drop_first(), b.drop_first());
        if a.drop_first() == b.drop_first() {
            assert(a =~= seq![a[0]] + a.drop_first());
            assert(b =~= seq![b[0]] + b.drop_first());
        }
    }
}

/// Keys that agree on their first `i` places compare as their remainders do.
proof fn lemma_lex_common_prefix(a: Seq<u32>, b: Seq<u32>, i: int)
    requires
        0 <= i <= a.len(),
        i <= b.len(),
        a.take(i) == b.take(i),
    ensures
        lex_lt(a, b) == lex_lt(a.skip(i), b.skip(i)),
    decreases i,
{
    if i == 0 {
        assert(a.skip(0) =~= a);
        assert(b.skip(0) =~= b);
    } else {
        assert(a[0] == a.take(i)[0]);
        assert(b[0] == b.take(i)[0]);
        assert(a.drop_first().take(i - 1) =~= a.take(i).drop_first());
        assert(b.drop_first().take(i - 1) =~= b.take(i).drop_first());
        lemma_lex_common_prefix(a.drop_first(), b.drop_first(), i - 1);
        assert(a.drop_first().skip(i - 1) =~= a.skip(i));
        assert(b.drop_first().skip(i - 1) =~= b.skip(i));
    }
}

/// Whether key `a` comes strictly before key `b`.
pub fn key_lt(a: &Vec<u32>, b: &Vec<u32>) -> (r: bool)
    ensures
        r == lex_lt(a@, b@),
{
    let mut i: usize = 0;
    while i < a.len() && i < b.len() && a[i] == b[i]
        invariant
            i <= a.len(),
            i <= b.len(),
            a@.take(i as int) == b@.take(i as int),
        decreases a.len() - i,
    {
        assert(a@.take(i + 1) =~= a@.take(i as int).push(a@[i as int]));
        assert(b@.take(i + 1) =~= b@.take(i as int).push(b@[i as int]));
        i = i + 1;
    }
    proof {
        lemma_lex_common_prefix(a@, b@, i as int);
        if i < a.len() && i < b.len() {
            assert(a@.skip(i as int)[0] == a@[i as int]);
            assert(b@.skip(i as int)[0] == b@[i as int]);
        }
    }
    if i >= b.len() {
        false
    } else if i >= a.len() {
        true
    } else {
        a[i] < b[i]
    }
}

/// The order of positions is transitive.
pub proof fn lemma_ranked_before_transitive(keys: Seq<Seq<u32>>, x: int, y: int, z: int)
    requires
        ranked_before(keys, x, y),
        ranked_before(keys, y, z),
    ensures
        ranked_before(keys, x, z),
{
    if lex_lt(keys[x], keys[y]) && lex_lt(keys[y], keys[z]) {
        lemma_lex_transitive(keys[x], keys[y], keys[z]);
    }
}

/// `order` holds positions from `low` up to `high`, each before the next.
spec fn is_run(keys: Seq<Seq<u32>>, order: Seq<usize>, low: int, high: int) -> bool {
    &&& forall|i: int| 0 <= i < order.len() ==> low <= (#[trigger] order[i]) < high
    &&& forall|i: int, j: int|
        0 <= i < j < order.len() ==> ranked_before(keys, order[i] as int, order[j] as int)
}

/// Merges two runs, the first over the positions below `middle` and the
/// second over those from `middle` on, into one.
fn merge(keys: &Vec<Vec<u32>>, left: &Vec<usize>, right: &Vec<usize>, Ghost(low): Ghost<int>, Ghost(
    middle,
): Ghost<int>, Ghost(high): Ghost<int>) -> (merged: Vec<usize>)
    requires
        0 <= low <= middle <= high <= keys.len(),
        is_run(keys.deep_view(), left@, low, middle),
        is_run(keys.deep_view(), right@, middle, high),
    ensures
        merged.len() == left.len() + right.len(),
        is_run(keys.deep_view(), merged@, low, high),
{
    let ghost ks = keys.deep_view();
    let mut merged: Vec<usize> = Vec::new();
    let mut i: usize = 0;
    let mut j: usize = 0;
    while i < left.len() || j < right.len()
        invariant
            0 <= low <= middle <= high <= keys.len(),
            ks == keys.deep_view(),
            is_run(ks, left@, low, middle),
            is_run(ks, right@, middle, high),
            i <= left.len(),
            j <= right.len(),
            merged.len() == i + j,
            is_run(ks, merged@, low, high),
            forall|p: int|
                0 <= p < merged.len() && i < left.len() ==> ranked_before(
                    ks,
                    (#[trigger] merged[p]) as int,
                    left[i as int] as int,
                ),
            forall|p: int|
                0 <= p < merged.len() && j < right.len() ==> ranked_before(
                    ks,
                    (#[trigger] merged[p]) as int,
                    right[j as int] as int,
                ),
        decreases left.len() - i + right.len() - j,
    {
        let from_left = if j >= right.len() {
            true
        } else if i >= left.len() {
            false
        } else {
            assert(ks[left[i as int] as int] == keys@[left[i as int] as int]@);
            assert(ks[right[j as int] as int] == keys@[right[j as int] as int]@);
            !key_lt(&keys[right[j]], &keys[left[i]])
        };
        let ghost before = merged@;
        if from_left {
            let x = left[i];
            merged.push(x);
            proof {
                assert forall|p: int, q: int| 0 <= p < q < merged.len() implies ranked_before(
                    ks,
                    merged[p] as int,
                    merged[q] as int,
                ) by {
                    if q < before.len() {
                        assert(merged[p] == before[p] && merged[q] == before[q]);
                    } else {
                        assert(merged[p] == before[p]);
                    }
                }
                assert forall|p: int| 0 <= p < merged.len() implies low <= (#[trigger] merged[p])
                    < high by {
                    if p < before.len() {
                        assert(merged[p] == before[p]);
                    }
                }
                if i + 1 < left.len() {
                    let next = left[i + 1] as int;
                    assert(ranked_before(ks, x as int, next));
                    assert forall|p: int| 0 <= p < merged.len() implies ranked_before(
                        ks,
                        (#[trigger] merged[p]) as int,
                        next,
                    ) by {
                        if p < before.len() {
                            assert(merged[p] == before[p]);
                            lemma_ranked_before_transitive(ks, before[p] as int, x as int, next);
                        }
                    }
                }
                if j < right.len() {
                    let other = right[j as int] as int;
                    lemma_lex_total(ks[x as int], ks[other]);
                    assert(ranked_before(ks, x as int, other));
                    assert forall|p: int| 0 <= p < merged.len() implies ranked_before(
                        ks,
                        (#[trigger] merged[p]) as int,
                        other,
                    ) by {
                        if p < before.len() {
                            assert(merged[p] == before[p]);
                        }
                    }
                }
            }
            i = i + 1;
        } else {
            let y = right[j];
            merged.push(y);
            proof {
                assert forall|p: int, q: int| 0 <= p < q < merged.len() implies ranked_before(
                    ks,
                    merged[p] as int,
                    merged[q] as int,
                ) by {
                    if q < before.len() {
                        assert(merged[p] == before[p] && merged[q] == before[q]);
                    } else {
                        assert(merged[p] == before[p]);
                    }
                }
                assert forall|p: int| 0 <= p < merged.len() implies low <= (#[trigger] merged[p])
                    < high by {
                    if p < before.len() {
                        assert(merged[p] == before[p]);
                    }
                }
                if j + 1 < right.len() {
                    let next = right[j + 1] as int;
                    assert(ranked_before(ks, y as int, next));
                    assert forall|p: int| 0 <= p < merged.len() implies ranked_before(
                        ks,
                        (#[trigger] merged[p]) as int,
                        next,
                    ) by {
                        if p < before.len() {
                            assert(merged[p] == before[p]);
                            lemma_ranked_before_transitive(ks, before[p] as int, y as int, next);
                        }
                    }
                }
                if i < left.len() {
                    let other = left[i as int] as int;
                    assert(ranked_before(ks, y as int, other));
                    assert forall|p: int| 0 <= p < merged.len() implies ranked_before(
                        ks,
                        (#[trigger] merged[p]) as int,
                        other,
                    ) by {
                        if p < before.len() {
                            assert(merged[p] == before[p]);
                        }
                    }
                }
            }
            j = j + 1;
        }
    }
    merged
}

/// The ranking of the positions from `low` up to `high`.
fn rank_between(keys: &Vec<Vec<u32>>, low: usize, high: usize) -> (order: Vec<usize>)
    requires
        low <= high <= keys.len(),
    ensures
        order.len() == high - low,
        is_run(keys.deep_view(), order@, low as int, high as int),
    decreases high - low,
{
    if high - low == 0 {
        Vec::new()
    } else if high - low == 1 {
        let mut order: Vec<usize> = Vec::new();
        order.push(low);
        order
    } else {
        let middle = low + (high - low) / 2;
        let left = rank_between(keys, low, middle);
        let right = rank_between(keys, middle, high);
        merge(keys, &left, &right, Ghost(low as int), Ghost(middle as int), Ghost(high as int))
    }
}

/// The ranking of `keys`: every position once, smallest key first, equal
/// keys in the order of their positions.
pub fn rank(keys: &Vec<Vec<u32>>) -> (order: Vec<usize>)
    ensures
        is_ranking(keys.deep_view(), order@),
{
    rank_between(keys, 0, keys.len())
}

// ---------------------------------------------------------------------------
// Keys of texts, and listings by rank
// ---------------------------------------------------------------------------

/// The key by which a text is ordered: its code points.
pub open spec fn text_key(s: Seq<char>) -> Seq<u32> {
    s.map_values(|c: char| c as u32)
}

/// The key of `s`.
pub fn key_of_text(s: &str) -> (key: Vec<u32>)
    ensures
        key@ == text_key(s@),
{
    let chars = chars_of(s);
    let mut key: Vec<u32> = Vec::new();
    let mut i: usize = 0;
    while i < chars.len()
        invariant
            i <= chars.len(),
            chars@ == s@,
            key@ == text_key(s@.take(i as int)),
        decreases chars.len() - i,
    {
        key.push(chars[i] as u32);
        assert(key@ =~= text_key(s@.take(i + 1)));
        i = i + 1;
    }
    assert(s@.take(i as int) =~= s@);
    key
}

/// `listed` holds the rows in the order of their keys: smallest key first,
/// rows with equal keys in the order in which `rows` has them.
pub open spec fn is_ranked_listing<T>(rows: Seq<T>, keys: Seq<Seq<u32>>, listed: Seq<T>) -> bool {
    exists|order: Seq<usize>|
        #![trigger is_ranking(keys, order)]
        {
            &&& is_ranking(keys, order)
            &&& keys.len() == rows.len()
            &&& listed.len() == rows.len()
            &&& forall|i: int| 0 <= i < listed.len() ==> listed[i] == rows[order[i] as int]
        }
}

/// No position comes before itself, and of two positions only one comes
/// before the other.
pub proof fn lemma_ranked_before_asymmetric(keys: Seq<Seq<u32>>, x: int, y: int)
    requires
        ranked_before(keys, x, y),
    ensures
        !ranked_before(keys, y, x),
        x != y,
{
    lemma_lex_irreflexive(keys[x]);
    if lex_lt(keys[x], keys[y]) {
        lemma_lex_asymmetric(keys[x], keys[y]);
    }
}

/// A ranking names every position: each is somewhere in it.
pub proof fn ranking_names_every_position(keys: Seq<Seq<u32>>, order: Seq<usize>, x: int)
    requires
        is_ranking(keys, order),
        0 <= x < keys.len(),
    ensures
        exists|i: int| 0 <= i < order.len() && #[trigger] order[i] == x,
{
    broadcast use vstd::seq_lib::group_seq_properties;

    let n = keys.len() as int;
    let places = order.map_values(|p: usize| p as int);
    assert forall|i: int, j: int| 0 <= i < places.len() && 0 <= j < places.len() && i != j implies
        places[i] != places[j] by {
        if i < j {
            lemma_ranked_before_asymmetric(keys, order[i] as int, order[j] as int);
        } else {
            lemma_ranked_before_asymmetric(keys, order[j] as int, order[i] as int);
        }
    }
    places.unique_seq_to_set();
    vstd::set_lib::lemma_int_range(0, n);
    let all = vstd::set_lib::set_int_range(0, n);
    assert forall|p: int| places.to_set().contains(p) implies all.contains(p) by {
        let i = choose|i: int| 0 <= i < places.len() && places[i] == p;
        assert(order[i] < keys.len());
    }
    vstd::set_lib::lemma_subset_equality(places.to_set(), all);
    assert(all.contains(x));
    assert(places.to_set().contains(x));
    let i = choose|i: int| 0 <= i < places.len() && places[i] == x;
    assert(order[i] == x);
}

/// Two rankings of the same keys agree on their first `upto` places.
proof fn lemma_rankings_agree(keys: Seq<Seq<u32>>, a: Seq<usize>, b: Seq<usize>, upto: int)
    requires
        is_ranking(keys, a),
        is_ranking(keys, b),
        0 <= upto <= keys.len(),
    ensures
        forall|k: int| 0 <= k < upto ==> a[k] == b[k],
    decreases upto,
{
    if upto > 0 {
        lemma_rankings_agree(keys, a, b, upto - 1);
        let i = upto - 1;
        let x = a[i] as int;
        let y = b[i] as int;
        if x != y {
            lemma_lex_total(keys[x], keys[y]);
            if ranked_before(keys, x, y) {
                ranking_names_every_position(keys, b, x);
                let j = choose|j: int| 0 <= j < b.len() && #[trigger] b[j] == x;
                if j < i {
                    lemma_ranked_before_asymmetric(keys, a[j] as int, a[i] as int);
                } else {
                    assert(ranked_before(keys, b[i] as int, b[j] as int));
                    lemma_ranked_before_asymmetric(keys, x, y);
                }
            } else {
                assert(ranked_before(keys, y, x));
                ranking_names_every_position(keys, a, y);
                let j = choose|j: int| 0 <= j < a.len() && #[trigger] a[j] == y;
                if j < i {
                    lemma_ranked_before_asymmetric(keys, b[j] as int, b[i] as int);
                } else {
                    assert(ranked_before(keys, a[i] as int, a[j] as int));
                    lemma_ranked_before_asymmetric(keys, y, x);
                }
            }
        }
    }
}

/// Keys have exactly one ranking.
pub proof fn ranking_is_unique(keys: Seq<Seq<u32>>, a: Seq<usize>, b: Seq<usize>)
    requires
        is_ranking(keys, a),
        is_ranking(keys, b),
    ensures
        a == b,
{
    lemma_rankings_agree(keys, a, b, keys.len() as int);
    assert(a =~= b);
}

/// Rows have exactly one listing by rank: what is stated of a listing
/// determines it.
pub proof fn ranked_listing_is_unique<T>(
    rows: Seq<T>,
    keys: Seq<Seq<u32>>,
    first: Seq<T>,
    second: Seq<T>,
)
    requires
        is_ranked_listing(rows, keys, first),
        is_ranked_listing(rows, keys, second),
    ensures
        first == second,
{
    let a = choose|order: Seq<usize>|
        #![trigger is_ranking(keys, order)]
        {
            &&& is_ranking(keys, order)
            &&& keys.len() == rows.len()
            &&& first.len() == rows.len()
            &&& forall|i: int| 0 <= i < first.len() ==> first[i] == rows[order[i] as int]
        };
    let b = choose|order: Seq<usize>|
        #![trigger is_ranking(keys, order)]
        {
            &&& is_ranking(keys, order)
            &&& keys.len() == rows.len()
            &&& second.len() == rows.len()
            &&& forall|i: int| 0 <= i < second.len() ==> second[i] == rows[order[i] as int]
        };
    ranking_is_unique(keys, a, b);
    assert(first =~= second);
}

/// A listing by rank holds every row: none is lost, and since the listing
/// is as long as the rows are many, none is there twice.
pub proof fn every_row_is_listed<T>(rows: Seq<T>, keys: Seq<Seq<u32>>, listed: Seq<T>, at: int)
    requires
        is_ranked_listing(rows, keys, listed),
        0 <= at < rows.len(),
    ensures
        listed.len() == rows.len(),
        exists|i: int| 0 <= i < listed.len() && #[trigger] listed[i] == rows[at],
{
    let order = choose|order: Seq<usize>|
        #![trigger is_ranking(keys, order)]
        {
            &&& is_ranking(keys, order)
            &&& keys.len() == rows.len()
            &&& listed.len() == rows.len()
            &&& forall|i: int| 0 <= i < listed.len() ==> listed[i] == rows[order[i] as int]
        };
    ranking_names_every_position(keys, order, at);
    let i = choose|i: int| 0 <= i < order.len() && #[trigger] order[i] == at;
    assert(listed[i] == rows[at]);
}

// ---------------------------------------------------------------------------
// Decimal numbers
// ---------------------------------------------------------------------------

/// The character that writes the digit `d`.
pub open spec fn digit_char(d: nat) -> char {
    if d == 0 {
        '0'
    } else if d == 1 {
        '1'
    } else if d == 2 {
        '2'
    } else if d == 3 {
        '3'
    } else if d == 4 {
        '4'
    } else if d == 5 {
        '5'
    } else if d == 6 {
        '6'
    } else if d == 7 {
        '7'
    } else if d == 8 {
        '8'
    } else {
        '9'
    }
}

/// `n` written in base ten, without sign or leading zeros.
pub open spec fn decimal(n: nat) -> Seq<char>
    decreases n,
{
    if n < 10 {
        seq![digit_char(n)]
    } else {
        decimal(n / 10).push(digit_char(n % 10))
    }
}

fn digit_text(d: u64) -> (t: &'static str)
    requires
        d < 10,
    ensures
        t@ == seq![digit_char(d as nat)],
{
    proof {
        reveal_strlit("0");
        reveal_strlit("1");
        reveal_strlit("2");
        reveal_strlit("3");
        reveal_strlit("4");
        reveal_strlit("5");
        reveal_strlit("6");
        reveal_strlit("7");
        reveal_strlit("8");
        reveal_strlit("9");
    }
    let t = if d == 0 {
        "0"
    } else if d == 1 {
        "1"
    } else if d == 2 {
        "2"
    } else if d == 3 {
        "3"
    } else if d == 4 {
        "4"
    } else if d == 5 {
        "5"
    } else if d == 6 {
        "6"
    } else if d == 7 {
        "7"
    } else if d == 8 {
        "8"
    } else {
        "9"
    };
    assert(t@ =~= seq![digit_char(d as nat)]);
    t
}

/// Appends `n` in base ten to `out`.
pub fn push_decimal(out: &mut String, n: u64)
    ensures
        final(out)@ == old(out)@ + decimal(n as nat),
    decreases n,
{
    if n >= 10 {
        push_decimal(out, n / 10);
    }
    out.append(digit_text(n % 10));
    assert(final(out)@ =~= old(out)@ + decimal(n as nat));
}

/// Whether `c` is one of `0` to `9`.
pub open spec fn is_digit(c: char) -> bool {
    '0' <= c && c <= '9'
}

/// The digit that `c` writes.
pub open spec fn digit_value(c: char) -> nat {
    (c as u32 - '0' as u32) as nat
}

/// Whether `s` holds digits only.
pub open spec fn all_digits(s: Seq<char>) -> bool {
    forall|i: int| 0 <= i < s.len() ==> is_digit(#[trigger] s[i])
}

/// The number that the digits of `s` write in base ten.
pub open spec fn number_of(s: Seq<char>) -> nat
    decreases s.len(),
{
    if s.len() == 0 {
        0
    } else {
        number_of(s.drop_last()) * 10 + digit_value(s.last())
    }
}

/// What `text` denotes as a 16-bit unsigned number: an optional `+`, then at
/// least one digit, nothing else, and a value of at most 65535.
pub open spec fn parsed_u16(text: Seq<char>) -> Option<u16> {
    let digits = if starts_with(text, '+') {
        text.skip(1)
    } else {
        text
    };
    if digits.len() > 0 && all_digits(digits) && number_of(digits) <= u16::MAX {
        Some(number_of(digits) as u16)
    } else {
        None
    }
}

/// A number only grows as digits are appended.
proof fn lemma_number_grows(s: Seq<char>, k: int)
    requires
        0 <= k <= s.len(),
    ensures
        number_of(s.take(k)) <= number_of(s),
    decreases s.len() - k,
{
    if k < s.len() {
        lemma_number_grows(s, k + 1);
        assert(s.take(k + 1).drop_last() =~= s.take(k));
    } else {
        assert(s.take(k) =~= s);
    }
}

/// Reads a 16-bit unsigned number written in base ten.
pub fn parse_u16(text: &str) -> (r: Option<u16>)
    ensures
        r == parsed_u16(text@),
{
    let chars = chars_of(text);
    let start: usize = if chars.len() > 0 && chars[0] == '+' {
        1
    } else {
        0
    };
    let ghost digits = chars@.skip(start as int);
    proof {
        if start == 0 {
            assert(digits =~= text@);
        }
    }
    if start >= chars.len() {
        return None;
    }
    let mut value: u32 = 0;
    let mut i: usize = start;
    while i < chars.len()
        invariant
            start <= i <= chars.len(),
            digits == chars@.skip(start as int),
            digits == if starts_with(text@, '+') {
                text@.skip(1)
            } else {
                text@
            },
            all_digits(digits.take(i - start)),
            value == number_of(digits.take(i - start)),
            value <= u16::MAX,
        decreases chars.len() - i,
    {
        let c = chars[i];
        let ghost upto = digits.take(i - start + 1);
        proof {
            assert(upto.drop_last() =~= digits.take(i - start));
            assert(upto.last() == c);
        }
        if !('0' <= c && c <= '9') {
            proof {
                assert(digits[i - start] == c);
                assert(!all_digits(digits));
            }
            return None;
        }
        let d: u32 = c as u32 - '0' as u32;
        value = value * 10 + d;
        if value > 65535 {
            proof {
                lemma_number_grows(digits, i - start + 1);
            }
            return None;
        }
        proof {
            assert forall|k: int| 0 <= k < upto.len() implies is_digit(#[trigger] upto[k]) by {
                if k < upto.len() - 1 {
                    assert(upto[k] == digits.take(i - start)[k]);
                }
            }
        }
        i = i + 1;
    }
    proof {
        assert(digits.take(i - start) =~= digits);
    }
    Some(value as u16)
}

} // verus!
