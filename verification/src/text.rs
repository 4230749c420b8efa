//! Comma-separated list parsing: split on commas, trim surrounding
//! whitespace, drop empty pieces, and de-duplicate while keeping the
//! first occurrence of each entry.

use vstd::prelude::*;
use vstd::string::StrSliceExecFns;

verus! {

/// Whitespace characters removed by trimming: the Unicode
/// `White_Space` set, the same set `str::trim` removes.
pub open spec fn is_space_char(c: char) -> bool {
    c == '\u{0009}' || c == '\u{000A}' || c == '\u{000B}' || c == '\u{000C}' || c == '\u{000D}'
        || c == '\u{0020}' || c == '\u{0085}' || c == '\u{00A0}' || c == '\u{1680}'
        || c == '\u{2000}' || c == '\u{2001}' || c == '\u{2002}' || c == '\u{2003}'
        || c == '\u{2004}' || c == '\u{2005}' || c == '\u{2006}' || c == '\u{2007}'
        || c == '\u{2008}' || c == '\u{2009}' || c == '\u{200A}' || c == '\u{2028}'
        || c == '\u{2029}' || c == '\u{202F}' || c == '\u{205F}' || c == '\u{3000}'
}

/// Drops leading whitespace.
pub open spec fn trim_front(s: Seq<char>) -> Seq<char>
    decreases s.len(),
{
    if s.len() > 0 && is_space_char(s[0]) {
        trim_front(s.drop_first())
    } else {
        s
    }
}

/// Drops trailing whitespace.
pub open spec fn trim_back(s: Seq<char>) -> Seq<char>
    decreases s.len(),
{
    if s.len() > 0 && is_space_char(s.last()) {
        trim_back(s.drop_last())
    } else {
        s
    }
}

/// A string with surrounding whitespace removed.
pub open spec fn trim_spec(s: Seq<char>) -> Seq<char> {
    trim_back(trim_front(s))
}

/// The pieces of a string between its commas, in order. A string with
/// no comma is one piece; every comma separates two pieces, so the
/// result always holds one piece more than there are commas.
pub open spec fn split_commas(s: Seq<char>) -> Seq<Seq<char>>
    decreases s.len(),
{
    if s.len() == 0 {
        seq![Seq::<char>::empty()]
    } else if s[0] == ',' {
        seq![Seq::<char>::empty()] + split_commas(s.drop_first())
    } else {
        let rest = split_commas(s.drop_first());
        seq![seq![s[0]] + rest[0]] + rest.drop_first()
    }
}

/// The parsed list: pieces between commas, trimmed, empty pieces
/// dropped, in the order they appear.
pub open spec fn parse_list_spec(s: Seq<char>) -> Seq<Seq<char>> {
    split_commas(s).map_values(|t: Seq<char>| trim_spec(t)).filter(|t: Seq<char>| t.len() > 0)
}

/// What one piece contributes to the parsed list.
pub open spec fn emit_piece(t: Seq<char>) -> Seq<Seq<char>> {
    if trim_spec(t).len() > 0 {
        seq![trim_spec(t)]
    } else {
        Seq::<Seq<char>>::empty()
    }
}

/// The views of a vector of strings.
pub open spec fn views_of(v: Seq<String>) -> Seq<Seq<char>> {
    v.map_values(|x: String| x@)
}

proof fn lemma_split_commas_len(s: Seq<char>)
    ensures
        split_commas(s).len() >= 1,
    decreases s.len(),
{
    if s.len() > 0 {
        lemma_split_commas_len(s.drop_first());
    }
}

proof fn lemma_filter_singleton<A>(x: A, pred: spec_fn(A) -> bool)
    ensures
        seq![x].filter(pred) == if pred(x) {
            seq![x]
        } else {
            Seq::<A>::empty()
        },
{
    reveal_with_fuel(Seq::filter, 2);
    assert(seq![x].drop_last() =~= Seq::<A>::empty());
}

proof fn lemma_map_values_add<A, B>(a: Seq<A>, b: Seq<A>, f: spec_fn(A) -> B)
    ensures
        (a + b).map_values(f) == a.map_values(f) + b.map_values(f),
{
    assert((a + b).map_values(f) =~= a.map_values(f) + b.map_values(f));
}

/// Splitting a comma-free string gives that one piece.
proof fn lemma_split_no_comma(s: Seq<char>)
    requires
        forall|i: int| 0 <= i < s.len() ==> s[i] != ',',
    ensures
        split_commas(s) == seq![s],
    decreases s.len(),
{
    if s.len() == 0 {
        assert(s =~= Seq::<char>::empty());
    } else {
        lemma_split_no_comma(s.drop_first());
        let rest = split_commas(s.drop_first());
        assert(rest.drop_first() =~= Seq::<Seq<char>>::empty());
        assert(seq![s[0]] + rest[0] =~= s);
        assert(split_commas(s) =~= seq![s]);
    }
}

/// Splitting at the first comma: the piece before it, then the split
/// of what follows it.
proof fn lemma_split_at_comma(s: Seq<char>, k: int)
    requires
        0 <= k < s.len(),
        s[k] == ',',
        forall|i: int| 0 <= i < k ==> s[i] != ',',
    ensures
        split_commas(s) == seq![s.take(k)] + split_commas(s.skip(k + 1)),
    decreases k,
{
    if k == 0 {
        assert(s.take(0) =~= Seq::<char>::empty());
        assert(s.skip(1) =~= s.drop_first());
        assert(split_commas(s) =~= seq![s.take(0)] + split_commas(s.skip(1)));
    } else {
        let d = s.drop_first();
        assert(d[k - 1] == ',');
        assert(forall|i: int| 0 <= i < k - 1 ==> d[i] != ',');
        lemma_split_at_comma(d, k - 1);
        lemma_split_commas_len(d.skip(k));
        let rest = split_commas(d);
        assert(rest == seq![d.take(k - 1)] + split_commas(d.skip(k)));
        assert(rest[0] == d.take(k - 1));
        assert(seq![s[0]] + d.take(k - 1) =~= s.take(k));
        assert(rest.drop_first() =~= split_commas(d.skip(k)));
        assert(d.skip(k) =~= s.skip(k + 1));
        assert(split_commas(s) =~= seq![s.take(k)] + split_commas(s.skip(k + 1)));
    }
}

/// Parsing a comma-free string yields what that piece contributes.
proof fn lemma_parse_no_comma(s: Seq<char>)
    requires
        forall|i: int| 0 <= i < s.len() ==> s[i] != ',',
    ensures
        parse_list_spec(s) == emit_piece(s),
{
    lemma_split_no_comma(s);
    let f = |t: Seq<char>| trim_spec(t);
    let pred = |t: Seq<char>| t.len() > 0;
    assert(seq![s].map_values(f) =~= seq![trim_spec(s)]);
    lemma_filter_singleton(trim_spec(s), pred);
    assert(parse_list_spec(s) =~= emit_piece(s));
}

/// Parsing splits off the piece before the first comma.
proof fn lemma_parse_at_comma(s: Seq<char>, k: int)
    requires
        0 <= k < s.len(),
        s[k] == ',',
        forall|i: int| 0 <= i < k ==> s[i] != ',',
    ensures
        parse_list_spec(s) == emit_piece(s.take(k)) + parse_list_spec(s.skip(k + 1)),
{
    lemma_split_at_comma(s, k);
    let f = |t: Seq<char>| trim_spec(t);
    let pred = |t: Seq<char>| t.len() > 0;
    lemma_map_values_add(seq![s.take(k)], split_commas(s.skip(k + 1)), f);
    Seq::filter_distributes_over_add(
        seq![s.take(k)].map_values(f),
        split_commas(s.skip(k + 1)).map_values(f),
        pred,
    );
    assert(seq![s.take(k)].map_values(f) =~= seq![trim_spec(s.take(k))]);
    lemma_filter_singleton(trim_spec(s.take(k)), pred);
    assert(parse_list_spec(s) =~= emit_piece(s.take(k)) + parse_list_spec(s.skip(k + 1)));
}

/// Trimming the front skips exactly the leading whitespace.
proof fn lemma_trim_front_skip(s: Seq<char>, a: int)
    requires
        0 <= a <= s.len(),
        forall|i: int| 0 <= i < a ==> is_space_char(#[trigger] s[i]),
        a == s.len() || !is_space_char(s[a]),
    ensures
        trim_front(s) == s.skip(a),
    decreases a,
{
    if a == 0 {
        assert(s.skip(0) =~= s);
    } else {
        let d = s.drop_first();
        assert(is_space_char(s[0]));
        assert(forall|i: int| 0 <= i < a - 1 ==> is_space_char(#[trigger] d[i]));
        lemma_trim_front_skip(d, a - 1);
        assert(d.skip(a - 1) =~= s.skip(a));
    }
}

/// Trimming the back keeps exactly what precedes the trailing
/// whitespace.
proof fn lemma_trim_back_take(s: Seq<char>, b: int)
    requires
        0 <= b <= s.len(),
        forall|i: int| b <= i < s.len() ==> is_space_char(#[trigger] s[i]),
        b == 0 || !is_space_char(s[b - 1]),
    ensures
        trim_back(s) == s.take(b),
    decreases s.len() - b,
{
    if b == s.len() {
        if s.len() > 0 {
            assert(!is_space_char(s.last()));
        }
        assert(s.take(b) =~= s);
    } else {
        let d = s.drop_last();
        assert(is_space_char(s.last()));
        assert(forall|i: int| b <= i < d.len() ==> is_space_char(#[trigger] d[i]));
        lemma_trim_back_take(d, b);
        assert(d.take(b) =~= s.take(b));
    }
}

proof fn lemma_trim_front_no_lead(s: Seq<char>)
    ensures
        trim_front(s).len() > 0 ==> !is_space_char(trim_front(s)[0]),
    decreases s.len(),
{
    if s.len() > 0 && is_space_char(s[0]) {
        lemma_trim_front_no_lead(s.drop_first());
    }
}

proof fn lemma_trim_back_no_trail(s: Seq<char>)
    ensures
        trim_back(s).len() > 0 ==> !is_space_char(trim_back(s).last()),
    decreases s.len(),
{
    if s.len() > 0 && is_space_char(s.last()) {
        lemma_trim_back_no_trail(s.drop_last());
    }
}

proof fn lemma_trim_back_keeps_first(s: Seq<char>)
    ensures
        trim_back(s).len() > 0 ==> trim_back(s)[0] == s[0],
    decreases s.len(),
{
    if s.len() > 0 && is_space_char(s.last()) {
        lemma_trim_back_keeps_first(s.drop_last());
    }
}

proof fn lemma_trim_front_no_comma(s: Seq<char>)
    requires
        forall|i: int| 0 <= i < s.len() ==> #[trigger] s[i] != ',',
    ensures
        forall|i: int| 0 <= i < trim_front(s).len() ==> #[trigger] trim_front(s)[i] != ',',
    decreases s.len(),
{
    if s.len() > 0 && is_space_char(s[0]) {
        assert(forall|i: int|
            0 <= i < s.drop_first().len() ==> #[trigger] s.drop_first()[i] == s[i + 1]);
        lemma_trim_front_no_comma(s.drop_first());
        assert(trim_front(s) == trim_front(s.drop_first()));
        assert forall|i: int| 0 <= i < trim_front(s).len() implies #[trigger] trim_front(s)[i]
            != ',' by {
            assert(trim_front(s)[i] == trim_front(s.drop_first())[i]);
        }
    } else {
        assert forall|i: int| 0 <= i < trim_front(s).len() implies #[trigger] trim_front(s)[i]
            != ',' by {
            assert(trim_front(s)[i] == s[i]);
        }
    }
}

proof fn lemma_trim_back_no_comma(s: Seq<char>)
    requires
        forall|i: int| 0 <= i < s.len() ==> #[trigger] s[i] != ',',
    ensures
        forall|i: int| 0 <= i < trim_back(s).len() ==> #[trigger] trim_back(s)[i] != ',',
    decreases s.len(),
{
    if s.len() > 0 && is_space_char(s.last()) {
        assert(forall|i: int|
            0 <= i < s.drop_last().len() ==> #[trigger] s.drop_last()[i] == s[i]);
        lemma_trim_back_no_comma(s.drop_last());
        assert(trim_back(s) == trim_back(s.drop_last()));
        assert forall|i: int| 0 <= i < trim_back(s).len() implies #[trigger] trim_back(s)[i]
            != ',' by {
            assert(trim_back(s)[i] == trim_back(s.drop_last())[i]);
        }
    } else {
        assert forall|i: int| 0 <= i < trim_back(s).len() implies #[trigger] trim_back(s)[i]
            != ',' by {
            assert(trim_back(s)[i] == s[i]);
        }
    }
}

/// Trimming an already-trimmed string changes nothing.
proof fn lemma_trim_idempotent(s: Seq<char>)
    ensures
        trim_spec(trim_spec(s)) == trim_spec(s),
{
    let t = trim_spec(s);
    if t.len() == 0 {
        assert(trim_front(t) =~= t);
    } else {
        lemma_trim_back_keeps_first(trim_front(s));
        lemma_trim_front_no_lead(s);
        assert(!is_space_char(t[0]));
        lemma_trim_back_no_trail(trim_front(s));
        assert(!is_space_char(t.last()));
        assert(trim_front(t) == t);
        assert(trim_back(t) == t);
    }
}

/// For a comma-free piece: what it emits is non-empty entries that
/// are themselves trimmed, comma-free, and parse back to themselves.
proof fn lemma_emit_shape(t: Seq<char>)
    requires
        forall|i: int| 0 <= i < t.len() ==> #[trigger] t[i] != ',',
        trim_spec(t).len() > 0,
    ensures
        trim_spec(trim_spec(t)) == trim_spec(t),
        forall|k: int| 0 <= k < trim_spec(t).len() ==> #[trigger] trim_spec(t)[k] != ',',
        parse_list_spec(trim_spec(t)) == seq![trim_spec(t)],
{
    lemma_trim_front_no_comma(t);
    lemma_trim_back_no_comma(trim_front(t));
    lemma_trim_idempotent(t);
    lemma_parse_no_comma(trim_spec(t));
}

/// Law: each entry of the parsed list is non-empty, is free of
/// commas, and carries no surrounding whitespace; parsing an entry
/// again therefore returns exactly that one entry, so parsing is
/// idempotent entry by entry.
pub proof fn lemma_parse_list_idempotent(s: Seq<char>, i: int)
    requires
        0 <= i < parse_list_spec(s).len(),
    ensures
        parse_list_spec(s)[i].len() > 0,
        trim_spec(parse_list_spec(s)[i]) == parse_list_spec(s)[i],
        forall|k: int|
            0 <= k < parse_list_spec(s)[i].len() ==> #[trigger] parse_list_spec(s)[i][k] != ',',
        parse_list_spec(parse_list_spec(s)[i]) == seq![parse_list_spec(s)[i]],
    decreases s.len(),
{
    let e = parse_list_spec(s)[i];
    if forall|k: int| 0 <= k < s.len() ==> #[trigger] s[k] != ',' {
        lemma_parse_no_comma(s);
        assert(i == 0 && e == trim_spec(s));
        lemma_emit_shape(s);
    } else {
        let k0 = choose|k0: int| 0 <= k0 < s.len() && s[k0] == ',';
        lemma_first_comma_exists(s, k0);
        let k = choose|k: int|
            0 <= k < s.len() && s[k] == ',' && (forall|j: int| 0 <= j < k ==> s[j] != ',');
        lemma_parse_at_comma(s, k);
        let head = emit_piece(s.take(k));
        if i < head.len() {
            assert(i == 0 && e == trim_spec(s.take(k)));
            assert(forall|j: int| 0 <= j < s.take(k).len() ==> #[trigger] s.take(k)[j] != ',');
            lemma_emit_shape(s.take(k));
        } else {
            assert(e == parse_list_spec(s.skip(k + 1))[i - head.len()]);
            lemma_parse_list_idempotent(s.skip(k + 1), i - head.len());
        }
    }
}

/// Law: parsing splits across a comma, so parsing preserves order
/// and concatenation: the list parsed from `a`, a comma, then `b` is
/// the list parsed from `a` followed by the list parsed from `b`.
pub proof fn lemma_parse_list_concat(a: Seq<char>, b: Seq<char>)
    ensures
        parse_list_spec(a + seq![','] + b) == parse_list_spec(a) + parse_list_spec(b),
    decreases a.len(),
{
    let s = a + seq![','] + b;
    if forall|i: int| 0 <= i < a.len() ==> a[i] != ',' {
        assert(forall|i: int| 0 <= i < a.len() ==> s[i] == a[i] && s[i] != ',');
        assert(s[a.len() as int] == ',');
        lemma_parse_at_comma(s, a.len() as int);
        assert(s.take(a.len() as int) =~= a);
        assert(s.skip(a.len() as int + 1) =~= b);
        lemma_parse_no_comma(a);
        assert(parse_list_spec(s) == emit_piece(a) + parse_list_spec(b));
        assert(parse_list_spec(s) =~= parse_list_spec(a) + parse_list_spec(b));
    } else {
        let k = choose|k: int| 0 <= k < a.len() && a[k] == ',' && (forall|i: int|
            0 <= i < k ==> a[i] != ',');
        assert(exists|k: int|
            0 <= k < a.len() && a[k] == ',' && (forall|i: int| 0 <= i < k ==> a[i] != ',')) by {
            let k0 = choose|k0: int| 0 <= k0 < a.len() && a[k0] == ',';
            lemma_first_comma_exists(a, k0);
        }
        assert(forall|i: int| 0 <= i < k ==> s[i] == a[i] && s[i] != ',');
        assert(s[k] == a[k] && s[k] == ',');
        lemma_parse_at_comma(s, k);
        lemma_parse_at_comma(a, k);
        assert(s.take(k) =~= a.take(k));
        assert(s.skip(k + 1) =~= a.skip(k + 1) + seq![','] + b);
        lemma_parse_list_concat(a.skip(k + 1), b);
        assert(parse_list_spec(s) == emit_piece(a.take(k)) + (parse_list_spec(a.skip(k + 1))
            + parse_list_spec(b)));
        assert(parse_list_spec(a) + parse_list_spec(b) =~= emit_piece(a.take(k)) + (
        parse_list_spec(a.skip(k + 1)) + parse_list_spec(b)));
    }
}

/// Some index at or before `k0` is the first comma of `a`.
proof fn lemma_first_comma_exists(a: Seq<char>, k0: int)
    requires
        0 <= k0 < a.len(),
        a[k0] == ',',
    ensures
        exists|k: int|
            0 <= k < a.len() && a[k] == ',' && (forall|i: int| 0 <= i < k ==> a[i] != ','),
    decreases k0,
{
    if forall|i: int| 0 <= i < k0 ==> a[i] != ',' {
        assert(0 <= k0 < a.len() && a[k0] == ',' && (forall|i: int| 0 <= i < k0 ==> a[i] != ','));
    } else {
        let k1 = choose|k1: int| 0 <= k1 < k0 && a[k1] == ',';
        lemma_first_comma_exists(a, k1);
    }
}

/// The entries joined back into one comma-separated string.
pub open spec fn join_commas(entries: Seq<Seq<char>>) -> Seq<char>
    decreases entries.len(),
{
    if entries.len() == 0 {
        Seq::<char>::empty()
    } else if entries.len() == 1 {
        entries[0]
    } else {
        entries[0] + seq![','] + join_commas(entries.drop_first())
    }
}

/// Parsing the join of entries that each parse to themselves gives
/// back exactly those entries.
proof fn lemma_parse_join(entries: Seq<Seq<char>>)
    requires
        forall|i: int|
            0 <= i < entries.len() ==> parse_list_spec(#[trigger] entries[i]) == seq![entries[i]],
    ensures
        parse_list_spec(join_commas(entries)) == entries,
    decreases entries.len(),
{
    if entries.len() == 0 {
        let e = Seq::<char>::empty();
        lemma_parse_no_comma(e);
        assert(trim_front(e) == e);
        assert(trim_spec(e).len() == 0);
        assert(parse_list_spec(join_commas(entries)) =~= entries);
    } else if entries.len() == 1 {
        assert(parse_list_spec(entries[0]) == seq![entries[0]]);
        assert(seq![entries[0]] =~= entries);
    } else {
        let rest = entries.drop_first();
        lemma_parse_list_concat(entries[0], join_commas(rest));
        assert(forall|i: int| 0 <= i < rest.len() ==> #[trigger] rest[i] == entries[i + 1]);
        lemma_parse_join(rest);
        assert(parse_list_spec(join_commas(entries)) == seq![entries[0]] + rest);
        assert(seq![entries[0]] + rest =~= entries);
    }
}

/// Law: parsing is idempotent as a whole — joining the parsed
/// entries with commas and parsing again yields the same entries,
/// in the same order.
pub proof fn lemma_parse_list_round_trip(s: Seq<char>)
    ensures
        parse_list_spec(join_commas(parse_list_spec(s))) == parse_list_spec(s),
{
    let p = parse_list_spec(s);
    assert forall|i: int| 0 <= i < p.len() implies parse_list_spec(#[trigger] p[i]) == seq![
        p[i],
    ] by {
        lemma_parse_list_idempotent(s, i);
    }
    lemma_parse_join(p);
}

/// The entries with every repeated entry dropped: the first
/// occurrence of each entry is kept, in order.
pub open spec fn dedup_spec(s: Seq<Seq<char>>) -> Seq<Seq<char>>
    decreases s.len(),
{
    if s.len() == 0 {
        Seq::<Seq<char>>::empty()
    } else {
        let rest = dedup_spec(s.drop_last());
        if s.drop_last().contains(s.last()) {
            rest
        } else {
            rest.push(s.last())
        }
    }
}

/// De-duplication keeps exactly the entries that were present.
pub proof fn lemma_dedup_contains(s: Seq<Seq<char>>, x: Seq<char>)
    ensures
        dedup_spec(s).contains(x) <==> s.contains(x),
    decreases s.len(),
{
    if s.len() > 0 {
        let d = s.drop_last();
        let rest = dedup_spec(d);
        lemma_dedup_contains(d, x);
        if d.contains(x) {
            let i = choose|i: int| 0 <= i < d.len() && d[i] == x;
            assert(s[i] == x);
            assert(s.contains(x));
        }
        if s.contains(x) {
            let i = choose|i: int| 0 <= i < s.len() && s[i] == x;
            if i < s.len() - 1 {
                assert(d[i] == x);
                assert(d.contains(x));
                if d.contains(s.last()) {
                    assert(dedup_spec(s) == rest);
                } else {
                    let j = choose|j: int| 0 <= j < rest.len() && rest[j] == x;
                    assert(dedup_spec(s)[j] == x);
                }
                assert(dedup_spec(s).contains(x));
            } else {
                assert(x == s.last());
                if d.contains(s.last()) {
                    assert(d.contains(x));
                    assert(rest.contains(x));
                    assert(dedup_spec(s).contains(x));
                } else {
                    assert(dedup_spec(s).last() == x);
                    assert(dedup_spec(s).contains(x));
                }
            }
        }
        if dedup_spec(s).contains(x) {
            let i = choose|i: int| 0 <= i < dedup_spec(s).len() && dedup_spec(s)[i] == x;
            if d.contains(s.last()) {
                assert(rest[i] == x);
                assert(rest.contains(x));
            } else {
                if i < rest.len() {
                    assert(rest[i] == x);
                    assert(rest.contains(x));
                } else {
                    assert(x == s.last());
                    assert(s.contains(x)) by {
                        assert(s[s.len() - 1] == x);
                    }
                }
            }
        }
    }
}

/// Law: after de-duplication no entry appears twice.
pub proof fn lemma_dedup_unique(s: Seq<Seq<char>>)
    ensures
        forall|i: int, j: int|
            0 <= i < j < dedup_spec(s).len() ==> dedup_spec(s)[i] != dedup_spec(s)[j],
    decreases s.len(),
{
    if s.len() > 0 {
        lemma_dedup_unique(s.drop_last());
        let rest = dedup_spec(s.drop_last());
        if !s.drop_last().contains(s.last()) {
            lemma_dedup_contains(s.drop_last(), s.last());
            assert(!rest.contains(s.last()));
            assert(forall|i: int| 0 <= i < rest.len() ==> rest[i] != s.last());
            assert(forall|i: int, j: int|
                0 <= i < j < dedup_spec(s).len() ==> dedup_spec(s)[i] != dedup_spec(s)[j]);
        }
    }
}

/// Whether some entry of `v` has the same characters as `x`.
fn contains_string(v: &Vec<String>, x: &String) -> (res: bool)
    ensures
        res == views_of(v@).contains(x@),
{
    let mut i: usize = 0;
    while i < v.len()
        invariant
            0 <= i <= v@.len(),
            forall|k: int| 0 <= k < i ==> #[trigger] views_of(v@)[k] != x@,
        decreases v@.len() - i,
    {
        if v[i].eq(x) {
            assert(views_of(v@)[i as int] == x@);
            assert(views_of(v@).contains(x@));
            return true;
        }
        assert(views_of(v@)[i as int] == v@[i as int]@);
        i = i + 1;
    }
    assert(!views_of(v@).contains(x@)) by {
        if views_of(v@).contains(x@) {
            let k = choose|k: int| 0 <= k < views_of(v@).len() && views_of(v@)[k] == x@;
        }
    }
    false
}

/// Drops every entry equal to an earlier one, keeping first
/// occurrences in order.
pub fn dedup_strings(v: &Vec<String>) -> (res: Vec<String>)
    ensures
        views_of(res@) == dedup_spec(views_of(v@)),
{
    let ghost w = views_of(v@);
    let mut res: Vec<String> = Vec::new();
    let mut i: usize = 0;
    proof {
        assert(views_of(res@) =~= dedup_spec(w.take(0)));
    }
    while i < v.len()
        invariant
            0 <= i <= v@.len(),
            w == views_of(v@),
            views_of(res@) == dedup_spec(w.take(i as int)),
        decreases v@.len() - i,
    {
        proof {
            assert(w.take(i + 1).drop_last() =~= w.take(i as int));
            assert(w.take(i + 1).last() == w[i as int]);
            lemma_dedup_contains(w.take(i as int), w[i as int]);
        }
        let ghost before = res@;
        if !contains_string(&res, &v[i]) {
            let entry = v[i].clone();
            res.push(entry);
            proof {
                assert(views_of(res@) =~= views_of(before).push(w[i as int]));
            }
        }
        i = i + 1;
    }
    proof {
        assert(w.take(i as int) =~= w);
    }
    res
}

/// Whether a character is whitespace, matching `is_space_char`.
fn is_space(c: char) -> (res: bool)
    ensures
        res == is_space_char(c),
{
    c == '\u{0009}' || c == '\u{000A}' || c == '\u{000B}' || c == '\u{000C}' || c == '\u{000D}'
        || c == '\u{0020}' || c == '\u{0085}' || c == '\u{00A0}' || c == '\u{1680}'
        || c == '\u{2000}' || c == '\u{2001}' || c == '\u{2002}' || c == '\u{2003}'
        || c == '\u{2004}' || c == '\u{2005}' || c == '\u{2006}' || c == '\u{2007}'
        || c == '\u{2008}' || c == '\u{2009}' || c == '\u{200A}' || c == '\u{2028}'
        || c == '\u{2029}' || c == '\u{202F}' || c == '\u{205F}' || c == '\u{3000}'
}

/// Copies the piece of `s` between `lo` and `hi`, with surrounding
/// whitespace removed.
fn trimmed_piece(s: &str, lo: usize, hi: usize) -> (res: String)
    requires
        lo <= hi <= s@.len(),
    ensures
        res@ == trim_spec(s@.subrange(lo as int, hi as int)),
{
    let ghost u = s@.subrange(lo as int, hi as int);
    let mut a: usize = lo;
    while a < hi && is_space(s.get_char(a))
        invariant
            lo <= a <= hi <= s@.len(),
            forall|i: int| lo <= i < a ==> is_space_char(#[trigger] s@[i]),
        decreases hi - a,
    {
        a = a + 1;
    }
    proof {
        assert(forall|i: int| 0 <= i < a - lo ==> is_space_char(#[trigger] u[i]));
        if a < hi {
            assert(u[a - lo] == s@[a as int]);
        }
        lemma_trim_front_skip(u, a - lo);
    }
    let ghost v = u.skip(a - lo);
    let mut b: usize = hi;
    while b > a && is_space(s.get_char(b - 1))
        invariant
            lo <= a <= b <= hi <= s@.len(),
            forall|i: int| b <= i < hi ==> is_space_char(#[trigger] s@[i]),
        decreases b,
    {
        b = b - 1;
    }
    proof {
        assert(forall|i: int| b - a <= i < v.len() ==> is_space_char(#[trigger] v[i]));
        if b > a {
            assert(v[b - a - 1] == s@[b - 1]);
        }
        lemma_trim_back_take(v, b - a);
    }
    let piece = s.substring_char(a, b);
    proof {
        assert(v.take(b - a) =~= s@.subrange(a as int, b as int));
    }
    piece.to_owned()
}

/// Splits on commas, trims each piece, and drops empty pieces.
pub fn parse_list(value: &str) -> (res: Vec<String>)
    ensures
        views_of(res@) == parse_list_spec(value@),
{
    let n = value.unicode_len();
    let mut res: Vec<String> = Vec::new();
    let mut pos: usize = 0;
    proof {
        assert(views_of(res@) =~= Seq::<Seq<char>>::empty());
        assert(value@.skip(0) =~= value@);
        assert(Seq::<Seq<char>>::empty() + parse_list_spec(value@) =~= parse_list_spec(value@));
    }
    loop
        invariant_except_break
            0 <= pos <= n == value@.len(),
            parse_list_spec(value@) == views_of(res@) + parse_list_spec(value@.skip(pos as int)),
        ensures
            views_of(res@) == parse_list_spec(value@),
        decreases n - pos,
    {
        let mut j: usize = pos;
        while j < n && value.get_char(j) != ','
            invariant
                pos <= j <= n == value@.len(),
                forall|i: int| pos <= i < j ==> #[trigger] value@[i] != ',',
            decreases n - j,
        {
            j = j + 1;
        }
        let ghost u = value@.skip(pos as int);
        let ghost before = res@;
        let piece = trimmed_piece(value, pos, j);
        proof {
            assert(u.take(j - pos) =~= value@.subrange(pos as int, j as int));
            assert(forall|i: int| 0 <= i < j - pos ==> #[trigger] u[i] != ',');
        }
        if !piece.as_str().is_empty() {
            res.push(piece);
        }
        proof {
            assert(views_of(res@) =~= views_of(before) + emit_piece(u.take(j - pos)));
        }
        if j == n {
            proof {
                lemma_parse_no_comma(u);
                assert(u =~= u.take(j - pos));
            }
            break;
        }
        proof {
            assert(u[j - pos] == ',');
            lemma_parse_at_comma(u, j - pos);
            assert(u.skip(j + 1 - pos) =~= value@.skip(j + 1));
        }
        pos = j + 1;
    }
    res
}

} // verus!
