//! A reader and writer for the small documents that quests keep their
//! requirements, progress and rewards in: one object of keys and values,
//! where a value is a number, a quoted string, an object of numbers or a list
//! of objects.
//!
//! The reader is permissive. It never fails: a key that is missing, or a
//! value that is no number, reads as absent.

use crate::text::{
    append_chars, decimal_text, decimal_value, find, find_from, find_in, from_chars, index_of,
    is_digit,
    leading_digits, lemma_decimal_text_reads_back, matches_at, lemma_find_from_is,
    lemma_index_of_from_first, lemma_run_end, lemma_run_end_is, parse_unsigned, position_of,
    push_decimal, quoted, read_unsigned, run_end, same_chars, scan_run, slice_of, to_chars, trim,
    trim_start, trimmed, trimmed_start, CharClass,
};
use vstd::prelude::*;

verus! {

/// The number stored under `key`: the digits that follow the first `:` after
/// the first occurrence of the quoted key, white space before them skipped.
/// Absent where the key or the `:` is missing, where no digit stands there, or
/// where the digits write more than a `u32` holds.
pub open spec fn number_at(doc: Seq<char>, key: Seq<char>) -> Option<u32> {
    match find(doc, quoted(key)) {
        None => None,
        Some(at) => {
            let after_key = doc.skip(at + quoted(key).len());
            match index_of(after_key, ':') {
                None => None,
                Some(colon) => {
                    let digits = leading_digits(
                        trim_start(after_key.skip(colon + 1), CharClass::Space),
                    );
                    if digits.len() > 0 && decimal_value(digits) <= u32::MAX {
                        Some(decimal_value(digits) as u32)
                    } else {
                        None
                    }
                },
            }
        },
    }
}

/// The count stored under `key`, 0 where there is none.
pub open spec fn count_at(doc: Seq<char>, key: Seq<char>) -> u32 {
    match number_at(doc, key) {
        Some(n) => n,
        None => 0,
    }
}

/// `"key":value`
pub open spec fn entry(key: Seq<char>, value: u32) -> Seq<char> {
    quoted(key) + seq![':'] + decimal_text(value as nat)
}

/// The document with the value under an existing `key` replaced: what stands
/// before the key is kept, the key is written again with the new value, and
/// what followed the old digits is kept. `None` where the key, or a `:` after
/// it, is missing.
pub open spec fn with_number_replaced(doc: Seq<char>, key: Seq<char>, value: u32) -> Option<
    Seq<char>,
> {
    match find(doc, quoted(key)) {
        None => None,
        Some(at) => {
            let after_key = doc.skip(at + quoted(key).len());
            match index_of(after_key, ':') {
                None => None,
                Some(colon) => {
                    let tail = trim_start(after_key.skip(colon + 1), CharClass::Space);
                    let rest = tail.skip(run_end(tail, CharClass::Digit, 0));
                    Some(doc.take(at) + entry(key, value) + rest)
                },
            }
        },
    }
}

/// The document with `value` stored under `key`. An existing value is
/// replaced. Otherwise the entry is added before the closing brace: alone in
/// the empty document `{}`, after a comma in any other document that ends in
/// `}`. A document that does not end in `}` is left as it is.
pub open spec fn with_number(doc: Seq<char>, key: Seq<char>, value: u32) -> Seq<char> {
    match with_number_replaced(doc, key, value) {
        Some(replaced) => replaced,
        None => if doc == "{}"@ {
            seq!['{'] + entry(key, value) + seq!['}']
        } else if doc.len() > 0 && doc.last() == '}' {
            doc.drop_last() + seq![','] + entry(key, value) + seq!['}']
        } else {
            doc
        },
    }
}

/// The inside of the object stored under `key`: what stands between the
/// first `{` at or after the quoted key and the first `}` after it. Braces
/// inside are not matched up.
pub open spec fn object_at(doc: Seq<char>, key: Seq<char>) -> Option<Seq<char>> {
    match find(doc, quoted(key)) {
        None => None,
        Some(at) => {
            let from_key = doc.skip(at);
            match index_of(from_key, '{') {
                None => None,
                Some(open) => {
                    let from_open = from_key.skip(open);
                    match index_of(from_open, '}') {
                        None => None,
                        Some(close) => Some(from_open.subrange(1, close)),
                    }
                },
            }
        },
    }
}

/// The objects found in `s` from index `i` on, by a scan that counts braces.
/// `depth` is the number of `{` that are open at `i`, less the `}` that had
/// nothing to close, and `start` is where the outermost open object began.
/// An object runs from a `{` met at depth 0 to the `}` that brings the depth
/// back to 0.
pub open spec fn objects_from(s: Seq<char>, i: int, depth: int, start: Option<int>) -> Seq<
    Seq<char>,
>
    decreases s.len() - i,
{
    if i < 0 || i >= s.len() {
        Seq::empty()
    } else if s[i] == '{' {
        objects_from(
            s,
            i + 1,
            depth + 1,
            if depth == 0 {
                Some(i)
            } else {
                start
            },
        )
    } else if s[i] == '}' {
        if depth == 1 {
            match start {
                Some(a) => seq![s.subrange(a, i + 1)] + objects_from(s, i + 1, 0, None),
                None => objects_from(s, i + 1, 0, None),
            }
        } else {
            objects_from(s, i + 1, depth - 1, start)
        }
    } else {
        objects_from(s, i + 1, depth, start)
    }
}

/// The objects, braces included, of the list stored under `key`: the list is
/// what stands between the first `[` at or after the quoted key and the first
/// `]` after it.
pub open spec fn objects_at(doc: Seq<char>, key: Seq<char>) -> Seq<Seq<char>> {
    match find(doc, quoted(key)) {
        None => Seq::empty(),
        Some(at) => {
            let from_key = doc.skip(at);
            match index_of(from_key, '[') {
                None => Seq::empty(),
                Some(open) => {
                    let from_open = from_key.skip(open);
                    match index_of(from_open, ']') {
                        None => Seq::empty(),
                        Some(close) => objects_from(from_open.subrange(1, close), 0, 0, None),
                    }
                },
            }
        },
    }
}

/// The item id of a reward object: the quoted string that follows the first
/// `:` after the key `item_id`.
pub open spec fn reward_item_id(obj: Seq<char>) -> Option<Seq<char>> {
    match find(obj, quoted("item_id"@)) {
        None => None,
        Some(at) => {
            let after_key = obj.skip(at + quoted("item_id"@).len());
            match index_of(after_key, ':') {
                None => None,
                Some(colon) => {
                    let value = trim_start(after_key.skip(colon + 1), CharClass::Space);
                    if value.len() > 0 && value[0] == '"' {
                        match index_of(value.skip(1), '"') {
                            None => None,
                            Some(close) => Some(value.subrange(1, close + 1)),
                        }
                    } else {
                        None
                    }
                },
            }
        },
    }
}

/// The quantity of a reward object, 1 where it names none.
pub open spec fn reward_quantity(obj: Seq<char>) -> u32 {
    match number_at(obj, "quantity"@) {
        Some(q) => q,
        None => 1,
    }
}

/// One `"fish": count` entry of a requirement is met by the progress. An
/// entry that is blank or has no `:` asks for nothing, and a count that does
/// not read as a number counts as 0.
pub open spec fn fish_entry_met(part: Seq<char>, progress: Seq<char>) -> bool {
    let p = trim(part, CharClass::Space);
    if p.len() == 0 {
        true
    } else {
        match index_of(p, ':') {
            None => true,
            Some(colon) => {
                let fish_id = trim(trim(p.take(colon), CharClass::Space), CharClass::Quote);
                let required: nat = match parse_unsigned(
                    trim(p.skip(colon + 1), CharClass::Space),
                    u32::MAX as nat,
                ) {
                    Some(n) => n,
                    None => 0,
                };
                count_at(progress, fish_id) >= required
            },
        }
    }
}

/// Every comma-separated entry of `entries` is met by the progress.
pub open spec fn fish_entries_met(entries: Seq<char>, progress: Seq<char>) -> bool
    decreases entries.len(),
{
    match index_of(entries, ',') {
        None => fish_entry_met(entries, progress),
        Some(comma) => {
            proof {
                lemma_index_of_from_first(entries, ',', 0);
            }
            fish_entry_met(entries.take(comma), progress) && fish_entries_met(
                entries.skip(comma + 1),
                progress,
            )
        },
    }
}

/// The `fish` clause: each fish that the requirements count has been caught
/// at least that often. Holds where the requirements have no `fish` object.
pub open spec fn fish_clause_met(requirements: Seq<char>, progress: Seq<char>) -> bool {
    match object_at(requirements, "fish"@) {
        Some(entries) => fish_entries_met(entries, progress),
        None => true,
    }
}

/// The `total_fish` clause: the progress counts at least that many fish under
/// `total`. Holds where the requirements name no total.
pub open spec fn total_clause_met(requirements: Seq<char>, progress: Seq<char>) -> bool {
    match number_at(requirements, "total_fish"@) {
        Some(needed) => count_at(progress, "total"@) >= needed,
        None => true,
    }
}

/// The `min_rarity` clause: the progress records a rarity at least that high
/// under `max_rarity`. Holds where the requirements name no rarity.
pub open spec fn rarity_clause_met(requirements: Seq<char>, progress: Seq<char>) -> bool {
    match number_at(requirements, "min_rarity"@) {
        Some(needed) => count_at(progress, "max_rarity"@) >= needed,
        None => true,
    }
}

/// The progress meets the requirements: all three clauses hold.
pub open spec fn requirements_met(requirements: Seq<char>, progress: Seq<char>) -> bool {
    &&& fish_clause_met(requirements, progress)
    &&& total_clause_met(requirements, progress)
    &&& rarity_clause_met(requirements, progress)
}

/// The views of a list of texts.
pub open spec fn texts(v: Seq<Vec<char>>) -> Seq<Seq<char>> {
    v.map_values(|t: Vec<char>| t@)
}

/// The views of a list of strings.
pub open spec fn string_views(v: Seq<String>) -> Seq<Seq<char>> {
    v.map_values(|t: String| t@)
}

// ---------------------------------------------------------------------------
// Laws
// ---------------------------------------------------------------------------
/// A document holds no key whose quoted form is longer than the document.
pub proof fn lemma_short_document_has_no_key(doc: Seq<char>, key: Seq<char>)
    requires
        doc.len() < key.len() + 2,
    ensures
        number_at(doc, key) is None,
        object_at(doc, key) is None,
        objects_at(doc, key).len() == 0,
{
    assert(quoted(key).len() == key.len() + 2);
}

/// The empty requirements `{}` are met by any progress whatever.
pub proof fn lemma_empty_requirements_met(progress: Seq<char>)
    ensures
        requirements_met("{}"@, progress),
{
    reveal_strlit("{}");
    reveal_strlit("fish");
    reveal_strlit("total_fish");
    reveal_strlit("min_rarity");
    lemma_short_document_has_no_key("{}"@, "fish"@);
    lemma_short_document_has_no_key("{}"@, "total_fish"@);
    lemma_short_document_has_no_key("{}"@, "min_rarity"@);
}

/// The empty document `{}` holds no key.
pub proof fn lemma_empty_document_has_no_key(key: Seq<char>)
    ensures
        find("{}"@, quoted(key)) is None,
{
    reveal_strlit("{}");
    let empty = "{}"@;
    let qk = quoted(key);
    assert(qk.len() == key.len() + 2);
    assert(qk[0] == '"');
    assert(find_from(empty, qk, 1) is None);
    if matches_at(empty, qk, 0) {
        assert(empty.subrange(0, 2)[0] == qk[0]);
    }
}

/// In the document that holds one entry, the number reads back under its key.
pub proof fn lemma_single_entry_reads_back(key: Seq<char>, value: u32)
    ensures
        number_at(seq!['{'] + entry(key, value) + seq!['}'], key) == Some(value),
{
    let qk = quoted(key);
    let digits = decimal_text(value as nat);
    lemma_decimal_text_reads_back(value as nat);
    let doc = seq!['{'] + entry(key, value) + seq!['}'];
    assert(qk.len() == key.len() + 2);
    assert(qk[0] == '"');
    assert(doc.len() == qk.len() + digits.len() + 3);
    assert(doc[0] == '{');
    // The key stands at index 1, and not at index 0.
    assert(find(doc, qk) == Some(1int)) by {
        assert(doc.subrange(1, 1 + qk.len() as int) =~= qk);
        if matches_at(doc, qk, 0) {
            assert(doc.subrange(0, qk.len() as int)[0] == qk[0]);
        }
        lemma_find_from_is(doc, qk, 0, 1);
    }
    let after_key = doc.skip(1 + qk.len() as int);
    assert(after_key =~= seq![':'] + digits + seq!['}']);
    assert(index_of(after_key, ':') == Some(0int)) by {
        assert(after_key[0] == ':');
    }
    let value_text = after_key.skip(1);
    assert(value_text =~= digits + seq!['}']);
    assert(trim_start(value_text, CharClass::Space) == value_text) by {
        assert(is_digit(digits[0]));
        assert(value_text[0] == digits[0]);
        assert(!CharClass::Space.holds(value_text[0]));
        assert(value_text.skip(0) =~= value_text);
    }
    assert(leading_digits(value_text) == digits) by {
        assert forall|j: int| 0 <= j < digits.len() implies CharClass::Digit.holds(
            #[trigger] value_text[j],
        ) by {
            assert(value_text[j] == digits[j]);
        }
        assert(value_text[digits.len() as int] == '}');
        lemma_run_end_is(value_text, CharClass::Digit, 0, digits.len() as int);
        assert(value_text.take(digits.len() as int) =~= digits);
    }
}

/// A number stored in the empty document `{}` reads back under its key.
pub proof fn lemma_first_number_reads_back(key: Seq<char>, value: u32)
    ensures
        with_number("{}"@, key, value) == seq!['{'] + entry(key, value) + seq!['}'],
        number_at(with_number("{}"@, key, value), key) == Some(value),
        count_at(with_number("{}"@, key, value), key) == value,
{
    lemma_empty_document_has_no_key(key);
    lemma_single_entry_reads_back(key, value);
}

/// Requirements that ask for a total of at least one fish are not met by a
/// progress that records no total: what is missing counts as 0.
pub proof fn lemma_missing_total_not_met(requirements: Seq<char>, progress: Seq<char>)
    requires
        number_at(requirements, "total_fish"@) matches Some(needed) && needed > 0,
        number_at(progress, "total"@) is None,
    ensures
        !requirements_met(requirements, progress),
{
}

/// Requirements that ask for a rarity of at least one are not met by a
/// progress that records no rarity.
pub proof fn lemma_missing_rarity_not_met(requirements: Seq<char>, progress: Seq<char>)
    requires
        number_at(requirements, "min_rarity"@) matches Some(needed) && needed > 0,
        number_at(progress, "max_rarity"@) is None,
    ensures
        !requirements_met(requirements, progress),
{
}

// ---------------------------------------------------------------------------
// Readers and writers over characters
// ---------------------------------------------------------------------------
/// `key` between double quotes.
pub fn quote(key: &Vec<char>) -> (r: Vec<char>)
    ensures
        r@ == quoted(key@),
{
    let mut r: Vec<char> = Vec::new();
    r.push('"');
    append_chars(&mut r, key);
    r.push('"');
    assert(r@ =~= quoted(key@));
    r
}

/// Reads the number stored under `key`.
pub fn number_in(doc: &Vec<char>, key: &Vec<char>) -> (r: Option<u32>)
    ensures
        r == number_at(doc@, key@),
{
    let search_key = quote(key);
    match find_in(doc, &search_key) {
        None => None,
        Some(at) => {
            let after_key = slice_of(doc, at + search_key.len(), doc.len());
            match position_of(&after_key, ':') {
                None => None,
                Some(colon) => {
                    let after_colon = slice_of(&after_key, colon + 1, after_key.len());
                    let value = trimmed_start(&after_colon, CharClass::Space);
                    let end = scan_run(&value, CharClass::Digit, 0);
                    if end == 0 {
                        None
                    } else {
                        let digits = slice_of(&value, 0, end);
                        proof {
                            lemma_run_end(value@, CharClass::Digit, 0);
                            assert(digits@ =~= leading_digits(value@));
                            assert(digits@[0] != '+');
                        }
                        match read_unsigned(&digits, 0xFFFF_FFFF) {
                            Some(n) => Some(n as u32),
                            None => None,
                        }
                    }
                },
            }
        },
    }
}

/// Reads the count stored under `key`, 0 where there is none.
pub fn count_in(doc: &Vec<char>, key: &Vec<char>) -> (r: u32)
    ensures
        r == count_at(doc@, key@),
{
    match number_in(doc, key) {
        Some(n) => n,
        None => 0,
    }
}

fn push_entry(out: &mut Vec<char>, search_key: &Vec<char>, value: u32)
    ensures
        final(out)@ == old(out)@ + search_key@ + seq![':'] + decimal_text(value as nat),
{
    append_chars(out, search_key);
    out.push(':');
    push_decimal(out, value as u64);
    assert(out@ =~= old(out)@ + search_key@ + seq![':'] + decimal_text(value as nat));
}

fn replace_number(doc: &Vec<char>, search_key: &Vec<char>, key: Ghost<Seq<char>>, value: u32) -> (r:
    Option<Vec<char>>)
    requires
        search_key@ == quoted(key@),
    ensures
        r.is_some() == with_number_replaced(doc@, key@, value).is_some(),
        r matches Some(v) ==> with_number_replaced(doc@, key@, value) == Some(v@),
{
    match find_in(doc, search_key) {
        None => None,
        Some(at) => {
            let after_key = slice_of(doc, at + search_key.len(), doc.len());
            match position_of(&after_key, ':') {
                None => None,
                Some(colon) => {
                    let after_colon = slice_of(&after_key, colon + 1, after_key.len());
                    let tail = trimmed_start(&after_colon, CharClass::Space);
                    let end = scan_run(&tail, CharClass::Digit, 0);
                    let rest = slice_of(&tail, end, tail.len());
                    let mut out = slice_of(doc, 0, at);
                    push_entry(&mut out, search_key, value);
                    append_chars(&mut out, &rest);
                    assert(out@ =~= doc@.take(at as int) + entry(key@, value) + rest@);
                    Some(out)
                },
            }
        },
    }
}

/// Stores `value` under `key`.
pub fn number_set(doc: &Vec<char>, key: &Vec<char>, value: u32) -> (r: Vec<char>)
    ensures
        r@ == with_number(doc@, key@, value),
{
    let search_key = quote(key);
    match replace_number(doc, &search_key, Ghost(key@), value) {
        Some(replaced) => replaced,
        None => {
            let empty = to_chars("{}");
            if same_chars(doc, &empty) {
                let mut out: Vec<char> = Vec::new();
                out.push('{');
                push_entry(&mut out, &search_key, value);
                out.push('}');
                assert(out@ =~= seq!['{'] + entry(key@, value) + seq!['}']);
                out
            } else if doc.len() > 0 && doc[doc.len() - 1] == '}' {
                let mut out = slice_of(doc, 0, doc.len() - 1);
                out.push(',');
                push_entry(&mut out, &search_key, value);
                out.push('}');
                assert(out@ =~= doc@.drop_last() + seq![','] + entry(key@, value) + seq!['}']);
                out
            } else {
                slice_of(doc, 0, doc.len())
            }
        },
    }
}

/// Reads the inside of the object stored under `key`.
pub fn object_in(doc: &Vec<char>, key: &Vec<char>) -> (r: Option<Vec<char>>)
    ensures
        r.is_some() == object_at(doc@, key@).is_some(),
        r matches Some(v) ==> object_at(doc@, key@) == Some(v@),
{
    let search_key = quote(key);
    match find_in(doc, &search_key) {
        None => None,
        Some(at) => {
            let from_key = slice_of(doc, at, doc.len());
            match position_of(&from_key, '{') {
                None => None,
                Some(open) => {
                    let from_open = slice_of(&from_key, open, from_key.len());
                    match position_of(&from_open, '}') {
                        None => None,
                        Some(close) => {
                            proof {
                                lemma_index_of_from_first(from_key@, '{', 0);
                                lemma_index_of_from_first(from_open@, '}', 0);
                            }
                            Some(slice_of(&from_open, 1, close))
                        },
                    }
                },
            }
        },
    }
}

/// Scans `s` for objects, counting braces.
pub fn objects_in_list(s: &Vec<char>) -> (r: Vec<Vec<char>>)
    ensures
        texts(r@) == objects_from(s@, 0, 0, None),
{
    let mut out: Vec<Vec<char>> = Vec::new();
    let mut depth: i128 = 0;
    let mut start: Option<usize> = None;
    let mut i: usize = 0;
    let ghost mut gstart: Option<int> = None;
    while i < s.len()
        invariant
            i <= s.len(),
            -(i as int) <= depth <= i as int,
            gstart == (match start {
                Some(a) => Some(a as int),
                None => None::<int>,
            }),
            start matches Some(a) ==> a < i,
            objects_from(s@, 0, 0, None) == texts(out@) + objects_from(s@, i as int, depth as int, gstart),
        decreases s.len() - i,
    {
        let c = s[i];
        if c == '{' {
            if depth == 0 {
                start = Some(i);
                proof {
                    gstart = Some(i as int);
                }
            }
            depth += 1;
        } else if c == '}' {
            if depth == 1 {
                match start {
                    Some(a) => {
                        let obj = slice_of(s, a, i + 1);
                        proof {
                            assert(texts(out@.push(obj)) =~= texts(out@).push(obj@));
                            assert(texts(out@) + (seq![s@.subrange(a as int, i + 1)] + objects_from(
                                s@,
                                i + 1,
                                0,
                                None,
                            )) =~= texts(out@).push(obj@) + objects_from(s@, i + 1, 0, None));
                        }
                        out.push(obj);
                    },
                    None => {},
                }
                start = None;
                proof {
                    gstart = None;
                }
                depth = 0;
            } else {
                depth -= 1;
            }
        }
        i += 1;
    }
    assert(texts(out@) + Seq::<Seq<char>>::empty() =~= texts(out@));
    out
}

/// Reads the objects of the list stored under `key`.
pub fn objects_in(doc: &Vec<char>, key: &Vec<char>) -> (r: Vec<Vec<char>>)
    ensures
        texts(r@) == objects_at(doc@, key@),
{
    let search_key = quote(key);
    match find_in(doc, &search_key) {
        None => {
            let r: Vec<Vec<char>> = Vec::new();
            assert(texts(r@) =~= Seq::<Seq<char>>::empty());
            r
        },
        Some(at) => {
            let from_key = slice_of(doc, at, doc.len());
            match position_of(&from_key, '[') {
                None => {
                    let r: Vec<Vec<char>> = Vec::new();
                    assert(texts(r@) =~= Seq::<Seq<char>>::empty());
                    r
                },
                Some(open) => {
                    let from_open = slice_of(&from_key, open, from_key.len());
                    match position_of(&from_open, ']') {
                        None => {
                            let r: Vec<Vec<char>> = Vec::new();
                            assert(texts(r@) =~= Seq::<Seq<char>>::empty());
                            r
                        },
                        Some(close) => {
                            proof {
                                lemma_index_of_from_first(from_key@, '[', 0);
                                lemma_index_of_from_first(from_open@, ']', 0);
                            }
                            let content = slice_of(&from_open, 1, close);
                            objects_in_list(&content)
                        },
                    }
                },
            }
        },
    }
}

/// Reads the item id of a reward object.
pub fn reward_item_id_in(obj: &Vec<char>) -> (r: Option<Vec<char>>)
    ensures
        r.is_some() == reward_item_id(obj@).is_some(),
        r matches Some(v) ==> reward_item_id(obj@) == Some(v@),
{
    let key = to_chars("item_id");
    let search_key = quote(&key);
    match find_in(obj, &search_key) {
        None => None,
        Some(at) => {
            let after_key = slice_of(obj, at + search_key.len(), obj.len());
            match position_of(&after_key, ':') {
                None => None,
                Some(colon) => {
                    let after_colon = slice_of(&after_key, colon + 1, after_key.len());
                    let value = trimmed_start(&after_colon, CharClass::Space);
                    if value.len() > 0 && value[0] == '"' {
                        let inner = slice_of(&value, 1, value.len());
                        match position_of(&inner, '"') {
                            None => None,
                            Some(close) => Some(slice_of(&value, 1, close + 1)),
                        }
                    } else {
                        None
                    }
                },
            }
        },
    }
}

fn fish_entry_check(part: &Vec<char>, progress: &Vec<char>) -> (r: bool)
    ensures
        r == fish_entry_met(part@, progress@),
{
    let p = trimmed(part, CharClass::Space);
    if p.len() == 0 {
        return true;
    }
    match position_of(&p, ':') {
        None => true,
        Some(colon) => {
            let name = slice_of(&p, 0, colon);
            let name = trimmed(&name, CharClass::Space);
            let fish_id = trimmed(&name, CharClass::Quote);
            let count = slice_of(&p, colon + 1, p.len());
            let count = trimmed(&count, CharClass::Space);
            let required: u64 = match read_unsigned(&count, 0xFFFF_FFFF) {
                Some(n) => n,
                None => 0,
            };
            count_in(progress, &fish_id) as u64 >= required
        },
    }
}

fn fish_entries_check(entries: &Vec<char>, progress: &Vec<char>) -> (r: bool)
    ensures
        r == fish_entries_met(entries@, progress@),
{
    let mut rest = slice_of(entries, 0, entries.len());
    assert(rest@ =~= entries@);
    loop
        invariant
            fish_entries_met(entries@, progress@) == fish_entries_met(rest@, progress@),
        decreases rest.len(),
    {
        match position_of(&rest, ',') {
            None => {
                return fish_entry_check(&rest, progress);
            },
            Some(comma) => {
                let part = slice_of(&rest, 0, comma);
                if !fish_entry_check(&part, progress) {
                    return false;
                }
                rest = slice_of(&rest, comma + 1, rest.len());
            },
        }
    }
}

/// Whether the progress meets the requirements.
pub fn requirements_check(requirements: &Vec<char>, progress: &Vec<char>) -> (r: bool)
    ensures
        r == requirements_met(requirements@, progress@),
{
    let fish = to_chars("fish");
    match object_in(requirements, &fish) {
        Some(entries) => {
            if !fish_entries_check(&entries, progress) {
                return false;
            }
        },
        None => {},
    }
    let total_fish = to_chars("total_fish");
    match number_in(requirements, &total_fish) {
        Some(needed) => {
            let total = to_chars("total");
            if count_in(progress, &total) < needed {
                return false;
            }
        },
        None => {},
    }
    let min_rarity = to_chars("min_rarity");
    match number_in(requirements, &min_rarity) {
        Some(needed) => {
            let max_rarity = to_chars("max_rarity");
            if count_in(progress, &max_rarity) < needed {
                return false;
            }
        },
        None => {},
    }
    true
}

// ---------------------------------------------------------------------------
// Readers and writers over strings
// ---------------------------------------------------------------------------
/// Reads the number stored under `key` in the document.
pub fn extract_json_number(json: &str, key: &str) -> (r: Option<u32>)
    ensures
        r == number_at(json@, key@),
{
    let doc = to_chars(json);
    let k = to_chars(key);
    number_in(&doc, &k)
}

/// Reads the count stored under `key` in the progress document, 0 where
/// there is none.
pub fn get_progress_count(progress_json: &str, key: &str) -> (r: u32)
    ensures
        r == count_at(progress_json@, key@),
{
    match extract_json_number(progress_json, key) {
        Some(n) => n,
        None => 0,
    }
}

/// Stores `value` under `key` in the progress document and returns the new
/// document.
pub fn set_progress_count(progress_json: &str, key: &str, value: u32) -> (r: String)
    ensures
        r@ == with_number(progress_json@, key@, value),
{
    let doc = to_chars(progress_json);
    let k = to_chars(key);
    let out = number_set(&doc, &k, value);
    from_chars(&out)
}

/// Reads the inside of the object stored under `key` in the document.
pub fn read_nested_object(json: &str, key: &str) -> (r: Option<String>)
    ensures
        r.is_some() == object_at(json@, key@).is_some(),
        r matches Some(s) ==> object_at(json@, key@) == Some(s@),
{
    let doc = to_chars(json);
    let k = to_chars(key);
    match object_in(&doc, &k) {
        Some(v) => Some(from_chars(&v)),
        None => None,
    }
}

/// Reads the objects of the list stored under `key` in the document.
pub fn read_array_of_objects(json: &str, key: &str) -> (r: Vec<String>)
    ensures
        string_views(r@) == objects_at(json@, key@),
{
    let doc = to_chars(json);
    let k = to_chars(key);
    let found = objects_in(&doc, &k);
    let mut out: Vec<String> = Vec::new();
    let mut i: usize = 0;
    while i < found.len()
        invariant
            i <= found.len(),
            string_views(out@) == texts(found@).take(i as int),
        decreases found.len() - i,
    {
        let s = from_chars(&found[i]);
        assert(string_views(out@.push(s)) =~= string_views(out@).push(s@));
        assert(texts(found@).take(i + 1) =~= texts(found@).take(i as int).push(found@[i as int]@));
        out.push(s);
        i += 1;
    }
    assert(texts(found@).take(found.len() as int) =~= texts(found@));
    out
}

/// Reads a reward object: the item id, if it names one, and the quantity, 1
/// where it names none.
pub fn parse_item_reward(item_json: &str) -> (r: (Option<String>, u32))
    ensures
        r.0.is_some() == reward_item_id(item_json@).is_some(),
        r.0 matches Some(id) ==> reward_item_id(item_json@) == Some(id@),
        r.1 == reward_quantity(item_json@),
{
    let obj = to_chars(item_json);
    let item_id = match reward_item_id_in(&obj) {
        Some(id) => Some(from_chars(&id)),
        None => None,
    };
    let key = to_chars("quantity");
    let quantity = match number_in(&obj, &key) {
        Some(q) => q,
        None => 1,
    };
    (item_id, quantity)
}

/// Whether the progress meets the requirements of a quest: each fish that the
/// requirements count under `fish` was caught at least that often, at least
/// `total_fish` fish were caught in all, and a fish of at least `min_rarity`
/// was among them. A clause that the requirements do not hold asks for nothing.
pub fn validate_quest_requirements(requirements_json: &str, progress_json: &str) -> (r: bool)
    ensures
        r == requirements_met(requirements_json@, progress_json@),
{
    let requirements = to_chars(requirements_json);
    let progress = to_chars(progress_json);
    requirements_check(&requirements, &progress)
}

} // verus!
