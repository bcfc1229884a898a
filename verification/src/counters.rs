//! Counter documents: the documents that storing numbers under plain keys
//! builds up from the empty document `{}`. The progress of a quest is one.
//!
//! A counter document is `{` and `}` around entries `"key":number` that are
//! separated by commas. For these documents reading and writing are exact:
//! a number reads back under its key, and writing one number changes no
//! other.

use crate::document::{
    count_at, entry, lemma_empty_document_has_no_key, number_at, requirements_met, with_number,
    with_number_replaced,
};
use crate::quests::{progress_after_catch, progress_fits};
use crate::text::{
    decimal_text, find, find_from, index_of, is_digit, leading_digits,
    lemma_decimal_text_reads_back, lemma_find_from_first, lemma_find_from_is, lemma_run_end_is,
    matches_at, quoted, trim_start, CharClass,
};
use vstd::prelude::*;

verus! {

/// A key with its number.
pub struct Counter {
    pub key: Seq<char>,
    pub value: u32,
}

/// The key holds no quote, comma or opening brace.
pub open spec fn is_plain_key(k: Seq<char>) -> bool {
    forall|i: int| 0 <= i < k.len() ==> is_plain_char(#[trigger] k[i])
}

/// The character is no quote, comma or opening brace.
pub open spec fn is_plain_char(c: char) -> bool {
    c != '"' && c != ',' && c != '{'
}

/// Every key is plain.
pub open spec fn all_plain(es: Seq<Counter>) -> bool {
    forall|j: int| 0 <= j < es.len() ==> is_plain_key(#[trigger] es[j].key)
}

/// What stands before the entry of index `n`: `{` before the first, a comma
/// before every other.
pub open spec fn separator(n: int) -> char {
    if n == 0 {
        '{'
    } else {
        ','
    }
}

/// The document up to and with its first `n` entries, without the closing
/// brace.
pub open spec fn prefix_document(es: Seq<Counter>, n: int) -> Seq<char>
    decreases n,
{
    if n <= 0 {
        Seq::empty()
    } else {
        prefix_document(es, n - 1) + seq![separator(n - 1)] + entry(es[n - 1].key, es[n - 1].value)
    }
}

/// The document from the comma before the entry of index `m` on, with the
/// closing brace.
pub open spec fn suffix_document(es: Seq<Counter>, m: int) -> Seq<char>
    decreases es.len() - m,
{
    if m < 0 || m >= es.len() {
        seq!['}']
    } else {
        seq![','] + entry(es[m].key, es[m].value) + suffix_document(es, m + 1)
    }
}

/// The document that holds the counters, in their order.
pub open spec fn counter_document(es: Seq<Counter>) -> Seq<char> {
    if es.len() == 0 {
        "{}"@
    } else {
        prefix_document(es, es.len() as int) + seq!['}']
    }
}

/// The index of the first of the first `n` counters under the key.
pub open spec fn first_key(es: Seq<Counter>, k: Seq<char>, n: int) -> Option<int>
    decreases n,
{
    if n <= 0 {
        None
    } else {
        match first_key(es, k, n - 1) {
            Some(i) => Some(i),
            None => if es[n - 1].key == k {
                Some(n - 1)
            } else {
                None
            },
        }
    }
}

/// The number of the first counter under the key.
pub open spec fn value_of(es: Seq<Counter>, k: Seq<char>) -> Option<u32> {
    match first_key(es, k, es.len() as int) {
        Some(i) => Some(es[i].value),
        None => None,
    }
}

/// The counters with the number stored under the key: in place of the first
/// counter under the key, or as a new last counter.
pub open spec fn set_counter(es: Seq<Counter>, k: Seq<char>, v: u32) -> Seq<Counter> {
    match first_key(es, k, es.len() as int) {
        Some(i) => es.update(i, Counter { key: k, value: v }),
        None => es.push(Counter { key: k, value: v }),
    }
}

// ---------------------------------------------------------------------------
// Where a key occurs
// ---------------------------------------------------------------------------
/// The first key that is found lies among the first `n`, has the key, and no
/// counter before it has.
pub proof fn lemma_first_key(es: Seq<Counter>, k: Seq<char>, n: int)
    requires
        0 <= n <= es.len(),
    ensures
        match first_key(es, k, n) {
            Some(i) => 0 <= i < n && es[i].key == k && forall|j: int|
                0 <= j < i ==> (#[trigger] es[j]).key != k,
            None => forall|j: int| 0 <= j < n ==> (#[trigger] es[j]).key != k,
        },
    decreases n,
{
    if n > 0 {
        lemma_first_key(es, k, n - 1);
    }
}

/// An entry added to a text adds one place where a quoted plain key occurs:
/// its own key, if that is the key.
pub proof fn lemma_matches_after_entry(
    p: Seq<char>,
    c: char,
    k2: Seq<char>,
    v: u32,
    k: Seq<char>,
    j: int,
)
    requires
        c == '{' || c == ',',
        is_plain_key(k),
        is_plain_key(k2),
    ensures
        matches_at(p + seq![c] + entry(k2, v), quoted(k), j) <==> (matches_at(p, quoted(k), j) || (
        j == p.len() + 1 && k == k2)),
{
    let qk = quoted(k);
    let qk2 = quoted(k2);
    let digits = decimal_text(v as nat);
    lemma_decimal_text_reads_back(v as nat);
    let x = p + seq![c] + entry(k2, v);
    let n = p.len() as int;
    assert(qk.len() == k.len() + 2);
    assert(qk2.len() == k2.len() + 2);
    assert(x.len() == n + 1 + qk2.len() + 1 + digits.len());
    // What stands where in the text.
    assert(forall|t: int| 0 <= t < n ==> x[t] == p[t]);
    assert(x[n] == c);
    assert(x[n + 1] == '"');
    assert(forall|t: int| 0 <= t < k2.len() ==> x[n + 2 + t] == k2[t]);
    assert(x[n + 2 + k2.len()] == '"');
    assert(x[n + 3 + k2.len()] == ':');
    assert(forall|t: int| 0 <= t < digits.len() ==> x[n + 4 + k2.len() + t] == digits[t]);
    assert(forall|t: int| 0 <= t < k.len() ==> qk[t + 1] == k[t]);
    assert(qk[0] == '"');
    assert(qk[k.len() as int + 1] == '"');
    if matches_at(p, qk, j) {
        assert(x.subrange(j, j + qk.len()) =~= p.subrange(j, j + qk.len()));
    }
    if j == n + 1 && k == k2 {
        assert(x.subrange(j, j + qk.len()) =~= qk);
    }
    if matches_at(x, qk, j) {
        let m = x.subrange(j, j + qk.len());
        assert(m == qk);
        assert(forall|t: int| 0 <= t < qk.len() ==> x[j + t] == #[trigger] m[t]);
        let end = j + k.len() + 1;
        assert(x[end] == m[k.len() as int + 1]);
        assert(x[j] == m[0]);
        if end < n {
            assert(p.subrange(j, j + qk.len()) =~= qk);
        } else if end == n {
            assert(false);
        } else if end == n + 1 {
            // The key would end in the separator.
            if k.len() >= 1 {
                assert(x[end - 1] == m[k.len() as int]);
                assert(m[k.len() as int] == k[k.len() - 1]);
                assert(is_plain_char(k[k.len() - 1]));
                assert(false);
            } else {
                assert(j == n);
                assert(false);
            }
        } else if end < n + 2 + k2.len() {
            assert(x[end] == k2[end - n - 2]);
            assert(is_plain_char(k2[end - n - 2]));
            assert(false);
        } else if end == n + 2 + k2.len() {
            if k.len() < k2.len() {
                assert(x[j] == k2[j - n - 2]);
                assert(is_plain_char(k2[j - n - 2]));
                assert(false);
            } else if k.len() > k2.len() {
                let t = n + 1 - j;
                assert(x[n + 1] == m[t]);
                assert(m[t] == k[t - 1]);
                assert(is_plain_char(k[t - 1]));
                assert(false);
            } else {
                assert(j == n + 1);
                assert forall|t: int| 0 <= t < k.len() implies k[t] == k2[t] by {
                    assert(x[j + t + 1] == m[t + 1]);
                }
                assert(k =~= k2);
            }
        } else if end == n + 3 + k2.len() {
            assert(false);
        } else {
            assert(is_digit(digits[end - n - 4 - k2.len()]));
            assert(false);
        }
    }
}

/// The closing brace adds no place where a quoted key occurs.
pub proof fn lemma_matches_after_brace(p: Seq<char>, k: Seq<char>, j: int)
    ensures
        matches_at(p + seq!['}'], quoted(k), j) <==> matches_at(p, quoted(k), j),
{
    let qk = quoted(k);
    let x = p + seq!['}'];
    assert(qk.len() == k.len() + 2);
    assert(qk[k.len() as int + 1] == '"');
    if matches_at(p, qk, j) {
        assert(x.subrange(j, j + qk.len()) =~= p.subrange(j, j + qk.len()));
    }
    if matches_at(x, qk, j) {
        let m = x.subrange(j, j + qk.len());
        assert(x[j + k.len() + 1] == m[k.len() as int + 1]);
        assert(p.subrange(j, j + qk.len()) =~= qk);
    }
}

/// Where a text has the places of another and one more, the search finds the
/// first place of the other, or else the one more.
pub proof fn lemma_find_with_one_more(
    x: Seq<char>,
    p: Seq<char>,
    pat: Seq<char>,
    extra: Option<int>,
)
    requires
        forall|j: int| matches_at(x, pat, j) <==> (matches_at(p, pat, j) || extra == Some(j)),
        extra matches Some(e) ==> forall|j: int| matches_at(p, pat, j) ==> j < e,
    ensures
        find(x, pat) == (if find(p, pat) is Some {
            find(p, pat)
        } else {
            extra
        }),
{
    lemma_find_from_first(p, pat, 0);
    lemma_find_from_first(x, pat, 0);
    match find(p, pat) {
        Some(i) => {
            lemma_find_from_is(x, pat, 0, i);
        },
        None => {
            match extra {
                Some(e) => {
                    assert(matches_at(x, pat, e));
                    lemma_find_from_is(x, pat, 0, e);
                },
                None => {},
            }
        },
    }
}

/// In the document up to its first `n` entries, a quoted plain key is found
/// where the first counter under the key is written.
pub proof fn lemma_find_in_prefix(es: Seq<Counter>, k: Seq<char>, n: int)
    requires
        0 <= n <= es.len(),
        all_plain(es),
        is_plain_key(k),
    ensures
        find(prefix_document(es, n), quoted(k)) == (match first_key(es, k, n) {
            Some(i) => Some(prefix_document(es, i).len() as int + 1),
            None => None::<int>,
        }),
    decreases n,
{
    let qk = quoted(k);
    assert(qk.len() == k.len() + 2);
    if n == 0 {
        assert(find_from(prefix_document(es, 0), qk, 0) is None);
    } else {
        lemma_find_in_prefix(es, k, n - 1);
        let p = prefix_document(es, n - 1);
        let c = separator(n - 1);
        let x = prefix_document(es, n);
        let e = es[n - 1];
        assert(is_plain_key(e.key));
        assert(x == p + seq![c] + entry(e.key, e.value));
        let extra = if e.key == k {
            Some(p.len() as int + 1)
        } else {
            None::<int>
        };
        assert forall|j: int| matches_at(x, qk, j) <==> (matches_at(p, qk, j) || extra == Some(
            j,
        )) by {
            lemma_matches_after_entry(p, c, e.key, e.value, k, j);
        }
        lemma_find_with_one_more(x, p, qk, extra);
    }
}

// ---------------------------------------------------------------------------
// Reading and writing one entry
// ---------------------------------------------------------------------------
/// Where a quoted key is first found at the head of its entry, and no digit
/// follows the entry, the entry's number is read under the key, and storing
/// a number under the key writes the entry anew and keeps what stands around
/// it.
pub proof fn lemma_entry_reads_back(
    l: Seq<char>,
    key: Seq<char>,
    value: u32,
    r: Seq<char>,
    stored: u32,
)
    requires
        find(l + entry(key, value) + r, quoted(key)) == Some(l.len() as int),
        r.len() > 0,
        !is_digit(r[0]),
    ensures
        number_at(l + entry(key, value) + r, key) == Some(value),
        with_number_replaced(l + entry(key, value) + r, key, stored) == Some(
            l + entry(key, stored) + r,
        ),
{
    let qk = quoted(key);
    let digits = decimal_text(value as nat);
    lemma_decimal_text_reads_back(value as nat);
    let doc = l + entry(key, value) + r;
    let at = l.len() as int;
    assert(qk.len() == key.len() + 2);
    assert(doc.len() == l.len() + qk.len() + 1 + digits.len() + r.len());
    let after_key = doc.skip(at + qk.len());
    assert(after_key =~= seq![':'] + digits + r);
    assert(index_of(after_key, ':') == Some(0int)) by {
        assert(after_key[0] == ':');
    }
    let value_text = after_key.skip(1);
    assert(value_text =~= digits + r);
    assert(trim_start(value_text, CharClass::Space) == value_text) by {
        assert(is_digit(digits[0]));
        assert(value_text[0] == digits[0]);
        assert(!CharClass::Space.holds(value_text[0]));
        assert(value_text.skip(0) =~= value_text);
    }
    assert forall|j: int| 0 <= j < digits.len() implies CharClass::Digit.holds(
        #[trigger] value_text[j],
    ) by {
        assert(value_text[j] == digits[j]);
    }
    assert(value_text[digits.len() as int] == r[0]);
    lemma_run_end_is(value_text, CharClass::Digit, 0, digits.len() as int);
    assert(value_text.take(digits.len() as int) =~= digits);
    assert(value_text.skip(digits.len() as int) =~= r);
    assert(doc.take(at) =~= l);
}

/// The document is its first `m` entries and what follows them.
pub proof fn lemma_document_splits(es: Seq<Counter>, m: int)
    requires
        1 <= m <= es.len(),
    ensures
        counter_document(es) == prefix_document(es, m) + suffix_document(es, m),
    decreases es.len() - m,
{
    if m < es.len() {
        lemma_document_splits(es, m + 1);
        assert(prefix_document(es, m + 1) + suffix_document(es, m + 1) =~= prefix_document(es, m)
            + suffix_document(es, m));
    }
}

/// The first `n` entries are written as the first `n` counters say.
pub proof fn lemma_prefix_of_same_counters(es: Seq<Counter>, other: Seq<Counter>, n: int)
    requires
        0 <= n <= es.len(),
        n <= other.len(),
        forall|j: int| 0 <= j < n ==> es[j] == other[j],
    ensures
        prefix_document(es, n) == prefix_document(other, n),
    decreases n,
{
    if n > 0 {
        lemma_prefix_of_same_counters(es, other, n - 1);
    }
}

/// What follows the first `m` entries is written as the later counters say.
pub proof fn lemma_suffix_of_same_counters(es: Seq<Counter>, other: Seq<Counter>, m: int)
    requires
        0 <= m,
        es.len() == other.len(),
        forall|j: int| m <= j < es.len() ==> es[j] == other[j],
    ensures
        suffix_document(es, m) == suffix_document(other, m),
    decreases es.len() - m,
{
    if m < es.len() {
        lemma_suffix_of_same_counters(es, other, m + 1);
    }
}

/// The document around the entry of index `i`: what is found under the
/// entry's key there is the entry.
proof fn lemma_document_around(es: Seq<Counter>, i: int)
    requires
        0 <= i < es.len(),
    ensures
        counter_document(es) == prefix_document(es, i) + seq![separator(i)] + entry(
            es[i].key,
            es[i].value,
        ) + suffix_document(es, i + 1),
        suffix_document(es, i + 1).len() > 0,
        !is_digit(suffix_document(es, i + 1)[0]),
{
    lemma_document_splits(es, i + 1);
}

/// A quoted plain key is found in the document where the first counter under
/// the key is written.
pub proof fn lemma_find_in_document(es: Seq<Counter>, k: Seq<char>)
    requires
        all_plain(es),
        is_plain_key(k),
    ensures
        find(counter_document(es), quoted(k)) == (match first_key(es, k, es.len() as int) {
            Some(i) => Some(prefix_document(es, i).len() as int + 1),
            None => None::<int>,
        }),
{
    let qk = quoted(k);
    let n = es.len() as int;
    if n == 0 {
        lemma_empty_document_has_no_key(k);
    } else {
        let p = prefix_document(es, n);
        lemma_find_in_prefix(es, k, n);
        assert forall|j: int|
            matches_at(counter_document(es), qk, j) <==> (matches_at(p, qk, j) || None::<int>
                == Some(j)) by {
            lemma_matches_after_brace(p, k, j);
        }
        lemma_find_with_one_more(counter_document(es), p, qk, None);
    }
}

/// The number under a plain key of a counter document is the number of the
/// first counter under the key.
pub proof fn lemma_number_of_counter(es: Seq<Counter>, k: Seq<char>)
    requires
        all_plain(es),
        is_plain_key(k),
    ensures
        number_at(counter_document(es), k) == value_of(es, k),
{
    lemma_find_in_document(es, k);
    lemma_first_key(es, k, es.len() as int);
    match first_key(es, k, es.len() as int) {
        Some(i) => {
            lemma_document_around(es, i);
            let l = prefix_document(es, i) + seq![separator(i)];
            assert(l + entry(k, es[i].value) + suffix_document(es, i + 1) =~= counter_document(
                es,
            ));
            lemma_entry_reads_back(l, k, es[i].value, suffix_document(es, i + 1), 0);
        },
        None => {},
    }
}

/// Storing a number under a plain key of a counter document gives the
/// document of the counters with the number stored.
pub proof fn lemma_number_stored(es: Seq<Counter>, k: Seq<char>, v: u32)
    requires
        all_plain(es),
        is_plain_key(k),
    ensures
        with_number(counter_document(es), k, v) == counter_document(set_counter(es, k, v)),
        all_plain(set_counter(es, k, v)),
{
    let n = es.len() as int;
    let doc = counter_document(es);
    let c = Counter { key: k, value: v };
    lemma_find_in_document(es, k);
    lemma_first_key(es, k, n);
    match first_key(es, k, n) {
        Some(i) => {
            let after = es.update(i, c);
            lemma_document_around(es, i);
            lemma_document_around(after, i);
            lemma_prefix_of_same_counters(es, after, i);
            lemma_suffix_of_same_counters(es, after, i + 1);
            let l = prefix_document(es, i) + seq![separator(i)];
            let r = suffix_document(es, i + 1);
            assert(l + entry(k, es[i].value) + r =~= doc);
            lemma_entry_reads_back(l, k, es[i].value, r, v);
            assert(l + entry(k, v) + r =~= counter_document(after));
            assert forall|j: int| 0 <= j < after.len() implies is_plain_key(
                #[trigger] after[j].key,
            ) by {
                if j != i {
                    assert(after[j] == es[j]);
                }
            }
        },
        None => {
            let after = es.push(c);
            lemma_prefix_of_same_counters(es, after, n);
            assert(with_number_replaced(doc, k, v) is None);
            reveal_strlit("{}");
            if n == 0 {
                assert(prefix_document(after, 0) + seq![separator(0)] =~= seq!['{']);
                assert(counter_document(after) =~= seq!['{'] + entry(k, v) + seq!['}']);
            } else {
                let p = prefix_document(es, n);
                assert(p.len() > 2) by {
                    assert(quoted(es[n - 1].key).len() >= 2);
                }
                assert(doc.len() > 3);
                assert(doc != "{}"@);
                assert(doc.last() == '}');
                assert(doc.drop_last() =~= p);
                assert(counter_document(after) =~= doc.drop_last() + seq![','] + entry(k, v)
                    + seq!['}']);
            }
            assert forall|j: int| 0 <= j < after.len() implies is_plain_key(
                #[trigger] after[j].key,
            ) by {
                if j < n {
                    assert(after[j] == es[j]);
                }
            }
        },
    }
}

// ---------------------------------------------------------------------------
// Numbers that read back
// ---------------------------------------------------------------------------
/// The count of the first counter under the key, 0 where there is none.
pub open spec fn count_of(es: Seq<Counter>, k: Seq<char>) -> u32 {
    match value_of(es, k) {
        Some(n) => n,
        None => 0,
    }
}

/// Counters with the same keys have the first counter under a key at the
/// same index.
pub proof fn lemma_first_key_of_same_keys(
    es: Seq<Counter>,
    other: Seq<Counter>,
    k: Seq<char>,
    n: int,
)
    requires
        0 <= n <= es.len(),
        n <= other.len(),
        forall|j: int| 0 <= j < n ==> (#[trigger] es[j]).key == other[j].key,
    ensures
        first_key(es, k, n) == first_key(other, k, n),
    decreases n,
{
    if n > 0 {
        lemma_first_key_of_same_keys(es, other, k, n - 1);
    }
}

/// After a number is stored under a key, that number is the key's, and every
/// other key has the number it had.
pub proof fn lemma_set_counter_reads_back(es: Seq<Counter>, k: Seq<char>, v: u32, k2: Seq<char>)
    ensures
        value_of(set_counter(es, k, v), k2) == (if k2 == k {
            Some(v)
        } else {
            value_of(es, k2)
        }),
{
    let n = es.len() as int;
    let after = set_counter(es, k, v);
    lemma_first_key(es, k, n);
    lemma_first_key(es, k2, n);
    match first_key(es, k, n) {
        Some(i) => {
            assert forall|j: int| 0 <= j < n implies (#[trigger] es[j]).key == after[j].key by {}
            lemma_first_key_of_same_keys(es, after, k2, n);
        },
        None => {
            assert forall|j: int| 0 <= j < n implies (#[trigger] es[j]).key == after[j].key by {}
            lemma_first_key_of_same_keys(es, after, k2, n);
            assert(first_key(after, k2, n + 1) == (match first_key(after, k2, n) {
                Some(i) => Some(i),
                None => if after[n].key == k2 {
                    Some(n)
                } else {
                    None
                },
            }));
        },
    }
}

/// In a counter document, a number stored under a plain key reads back
/// under that key, and every other plain key reads as it did.
pub proof fn lemma_stored_number_reads_back(
    es: Seq<Counter>,
    k: Seq<char>,
    v: u32,
    k2: Seq<char>,
)
    requires
        all_plain(es),
        is_plain_key(k),
        is_plain_key(k2),
    ensures
        number_at(with_number(counter_document(es), k, v), k2) == (if k2 == k {
            Some(v)
        } else {
            number_at(counter_document(es), k2)
        }),
{
    lemma_number_stored(es, k, v);
    lemma_number_of_counter(set_counter(es, k, v), k2);
    lemma_number_of_counter(es, k2);
    lemma_set_counter_reads_back(es, k, v, k2);
}

// ---------------------------------------------------------------------------
// Catches counted in a progress
// ---------------------------------------------------------------------------
/// The counters after one more catch: one more of the fish, one more in
/// `total`, and in `max_rarity` the rarity of the catch if that is higher.
pub open spec fn counters_after_catch(es: Seq<Counter>, item_id: Seq<char>, rarity: u8) -> Seq<
    Counter,
> {
    let counted = set_counter(es, item_id, (count_of(es, item_id) + 1) as u32);
    let totalled = set_counter(counted, "total"@, (count_of(counted, "total"@) + 1) as u32);
    if rarity as u32 > count_of(totalled, "max_rarity"@) {
        set_counter(totalled, "max_rarity"@, rarity as u32)
    } else {
        totalled
    }
}

/// The keys `total` and `max_rarity` are plain.
pub proof fn lemma_progress_keys_are_plain()
    ensures
        is_plain_key("total"@),
        is_plain_key("max_rarity"@),
        "total"@ != "max_rarity"@,
{
    reveal_strlit("total");
    reveal_strlit("max_rarity");
    assert("total"@.len() != "max_rarity"@.len());
}

/// A progress that is a counter document is one after a catch too, with the
/// counters that the catch raises.
pub proof fn lemma_catch_keeps_counter_document(es: Seq<Counter>, item_id: Seq<char>, rarity: u8)
    requires
        all_plain(es),
        is_plain_key(item_id),
    ensures
        progress_after_catch(counter_document(es), item_id, rarity) == counter_document(
            counters_after_catch(es, item_id, rarity),
        ),
        all_plain(counters_after_catch(es, item_id, rarity)),
{
    lemma_progress_keys_are_plain();
    let total = "total"@;
    let highest = "max_rarity"@;
    lemma_number_of_counter(es, item_id);
    let first = (count_of(es, item_id) + 1) as u32;
    let counted = set_counter(es, item_id, first);
    lemma_number_stored(es, item_id, first);
    lemma_number_of_counter(counted, total);
    let second = (count_of(counted, total) + 1) as u32;
    let totalled = set_counter(counted, total, second);
    lemma_number_stored(counted, total, second);
    lemma_number_of_counter(totalled, highest);
    lemma_number_stored(totalled, highest, rarity as u32);
}

/// Every catch counts: in a progress that is a counter document, with room
/// in the counts, one more catch of a fish raises the count of the fish and
/// the count `total` by one, leaves in `max_rarity` the higher of what stood
/// there and the rarity of the catch, and changes no other count.
pub proof fn lemma_catch_raises_counts(
    es: Seq<Counter>,
    item_id: Seq<char>,
    rarity: u8,
    other: Seq<char>,
)
    requires
        all_plain(es),
        is_plain_key(item_id),
        is_plain_key(other),
        item_id != "total"@,
        item_id != "max_rarity"@,
        count_of(es, item_id) < u32::MAX,
        count_of(es, "total"@) < u32::MAX,
    ensures
        progress_fits(counter_document(es), item_id),
        ({
            let before = counter_document(es);
            let after = progress_after_catch(before, item_id, rarity);
            &&& count_at(after, item_id) == count_at(before, item_id) + 1
            &&& count_at(after, "total"@) == count_at(before, "total"@) + 1
            &&& count_at(after, "max_rarity"@) == (if rarity as u32 > count_at(
                before,
                "max_rarity"@,
            ) {
                rarity as u32
            } else {
                count_at(before, "max_rarity"@)
            })
            &&& other != item_id && other != "total"@ && other != "max_rarity"@ ==> number_at(
                after,
                other,
            ) == number_at(before, other)
        }),
{
    lemma_progress_keys_are_plain();
    lemma_catch_keeps_counter_document(es, item_id, rarity);
    let total = "total"@;
    let highest = "max_rarity"@;
    let first = (count_of(es, item_id) + 1) as u32;
    let counted = set_counter(es, item_id, first);
    let second = (count_of(counted, total) + 1) as u32;
    let totalled = set_counter(counted, total, second);
    let after = counters_after_catch(es, item_id, rarity);
    lemma_number_stored(es, item_id, first);
    lemma_number_stored(counted, total, second);
    lemma_number_stored(totalled, highest, rarity as u32);
    lemma_number_of_counter(es, item_id);
    lemma_number_of_counter(es, total);
    lemma_number_of_counter(es, highest);
    lemma_number_of_counter(es, other);
    lemma_number_of_counter(counted, total);
    lemma_number_of_counter(after, item_id);
    lemma_number_of_counter(after, total);
    lemma_number_of_counter(after, highest);
    lemma_number_of_counter(after, other);
    lemma_set_counter_reads_back(es, item_id, first, item_id);
    lemma_set_counter_reads_back(es, item_id, first, total);
    lemma_set_counter_reads_back(es, item_id, first, highest);
    lemma_set_counter_reads_back(es, item_id, first, other);
    lemma_set_counter_reads_back(counted, total, second, item_id);
    lemma_set_counter_reads_back(counted, total, second, total);
    lemma_set_counter_reads_back(counted, total, second, highest);
    lemma_set_counter_reads_back(counted, total, second, other);
    lemma_set_counter_reads_back(totalled, highest, rarity as u32, item_id);
    lemma_set_counter_reads_back(totalled, highest, rarity as u32, total);
    lemma_set_counter_reads_back(totalled, highest, rarity as u32, highest);
    lemma_set_counter_reads_back(totalled, highest, rarity as u32, other);
}

// ---------------------------------------------------------------------------
// Requirements on the total
// ---------------------------------------------------------------------------
/// The requirements that ask for a total of `needed` fish and nothing else.
pub open spec fn total_requirement(needed: u32) -> Seq<char> {
    counter_document(seq![Counter { key: "total_fish"@, value: needed }])
}

/// Requirements that ask for a total and nothing else are met exactly where
/// the progress counts at least that many fish under `total`.
pub proof fn lemma_total_requirement(needed: u32, progress: Seq<char>)
    ensures
        requirements_met(total_requirement(needed), progress) <==> count_at(progress, "total"@)
            >= needed,
{
    reveal_strlit("total_fish");
    reveal_strlit("min_rarity");
    reveal_strlit("fish");
    let es = seq![Counter { key: "total_fish"@, value: needed }];
    assert("total_fish"@[0] == 't');
    assert("min_rarity"@[0] == 'm');
    assert("fish"@.len() == 4);
    assert("total_fish"@.len() == 10);
    assert(first_key(es, "total_fish"@, 1) == Some(0int)) by {
        assert(first_key(es, "total_fish"@, 0) is None);
    }
    assert(first_key(es, "min_rarity"@, 1) is None) by {
        assert(first_key(es, "min_rarity"@, 0) is None);
    }
    assert(first_key(es, "fish"@, 1) is None) by {
        assert(first_key(es, "fish"@, 0) is None);
    }
    lemma_number_of_counter(es, "total_fish"@);
    lemma_number_of_counter(es, "min_rarity"@);
    lemma_find_in_document(es, "fish"@);
}

/// The requirements `{"total_fish":2}` ask for a total of two fish and
/// nothing else.
pub proof fn lemma_total_of_two()
    ensures
        "{\"total_fish\":2}"@ == total_requirement(2),
{
    reveal_strlit("{\"total_fish\":2}");
    reveal_strlit("total_fish");
    let es = seq![Counter { key: "total_fish"@, value: 2u32 }];
    assert(decimal_text(2) =~= seq!['2']);
    assert(prefix_document(es, 1) == prefix_document(es, 0) + seq!['{'] + entry(
        "total_fish"@,
        2u32,
    ));
    assert("{\"total_fish\":2}"@ =~= total_requirement(2));
}

/// Two catches, of any fish and rarity, in a progress that began as the
/// empty document leave a total of two, and meet requirements that ask for
/// a total of two fish.
pub proof fn lemma_two_catches_counted(
    first: Seq<char>,
    first_rarity: u8,
    second: Seq<char>,
    second_rarity: u8,
)
    requires
        is_plain_key(first),
        is_plain_key(second),
        first != "total"@ && first != "max_rarity"@,
        second != "total"@ && second != "max_rarity"@,
    ensures
        ({
            let once = progress_after_catch("{}"@, first, first_rarity);
            let twice = progress_after_catch(once, second, second_rarity);
            &&& progress_fits("{}"@, first)
            &&& progress_fits(once, second)
            &&& count_at(once, "total"@) == 1
            &&& count_at(twice, "total"@) == 2
            &&& count_at(twice, second) == (if first == second {
                2u32
            } else {
                1u32
            })
            &&& count_at(twice, "max_rarity"@) == (if first_rarity > second_rarity {
                first_rarity as u32
            } else {
                second_rarity as u32
            })
            &&& requirements_met("{\"total_fish\":2}"@, twice)
        }),
{
    lemma_progress_keys_are_plain();
    let none = Seq::<Counter>::empty();
    assert(counter_document(none) == "{}"@);
    assert(first_key(none, first, 0) is None);
    assert(first_key(none, second, 0) is None);
    assert(first_key(none, "total"@, 0) is None);
    assert(first_key(none, "max_rarity"@, 0) is None);
    lemma_number_of_counter(none, second);
    lemma_number_of_counter(none, "total"@);
    lemma_number_of_counter(none, "max_rarity"@);
    lemma_catch_raises_counts(none, first, first_rarity, second);
    lemma_catch_keeps_counter_document(none, first, first_rarity);
    let one = counters_after_catch(none, first, first_rarity);
    let once = progress_after_catch("{}"@, first, first_rarity);
    lemma_number_of_counter(one, second);
    lemma_number_of_counter(one, "total"@);
    lemma_number_of_counter(one, "max_rarity"@);
    lemma_catch_raises_counts(one, second, second_rarity, second);
    lemma_total_of_two();
    lemma_total_requirement(2, progress_after_catch(once, second, second_rarity));
}

} // verus!
