//! The history ledger: the record type for one past conversion, its
//! canonical JSON serialization, the strict parser for the history file,
//! and the rendering of a loaded ledger for display.
//!
//! The file format is a JSON array of objects, one per conversion, each
//! with the fields `original_unit`, `target_unit`, `original_value` and
//! `target_value`, pretty-printed with two-space indentation. The
//! serializer and the parser below are exact inverses on this canonical
//! form; reading and writing the file itself is left to the binary.

use vstd::prelude::*;
use vstd::string::*;
use crate::decimal::{Decimal, spec_decimal_json, spec_decimal_4dp};
use crate::numfmt::dec_digits;

verus! {

/// Relies on `String::push`: appends exactly the given character.
pub assume_specification[ String::push ](s: &mut String, c: char)
    ensures
        final(s)@ == old(s)@.push(c),
;

/// A record of one past conversion: the display symbols of the two units
/// and the two numeric values. Symbols are stored as text, so the ledger
/// format does not depend on the live unit enumerations.
#[derive(Debug, Clone, PartialEq)]
pub struct HistoryEntry {
    pub original_unit: String,
    pub target_unit: String,
    pub original_value: Decimal,
    pub target_value: Decimal,
}

/// The view of an entry: its four fields as mathematical values.
pub struct EntryView {
    pub original_unit: Seq<char>,
    pub target_unit: Seq<char>,
    pub original_value: int,
    pub target_value: int,
}

impl View for HistoryEntry {
    type V = EntryView;

    open spec fn view(&self) -> EntryView {
        EntryView {
            original_unit: self.original_unit@,
            target_unit: self.target_unit@,
            original_value: self.original_value.scaled as int,
            target_value: self.target_value.scaled as int,
        }
    }
}

/// The views of a ledger's entries, in order.
pub open spec fn history_views(s: Seq<HistoryEntry>) -> Seq<EntryView> {
    s.map_values(|e: HistoryEntry| e@)
}

/// The history file does not store a well-formed entry whose value fields
/// leave this range (just above 10^30 scaled, a value of 10^18 units).
pub open spec fn entry_storable(e: EntryView) -> bool {
    &&& -2_000_000_000_000_000_000_000_000_000_000 <= e.original_value
        <= 2_000_000_000_000_000_000_000_000_000_000
    &&& -2_000_000_000_000_000_000_000_000_000_000 <= e.target_value
        <= 2_000_000_000_000_000_000_000_000_000_000
}

// ------------------------------------------------------------------
// Serialization
// ------------------------------------------------------------------
/// A string character as it appears inside a JSON string: quote and
/// backslash are escaped, everything else stands for itself.
pub open spec fn esc_char(c: char) -> Seq<char> {
    if c == '"' {
        seq!['\\', '"']
    } else if c == '\\' {
        seq!['\\', '\\']
    } else {
        seq![c]
    }
}

/// A whole string escaped for a JSON string body.
pub open spec fn esc_str(s: Seq<char>) -> Seq<char>
    decreases s.len(),
{
    if s.len() == 0 {
        Seq::empty()
    } else {
        esc_str(s.drop_last()) + esc_char(s.last())
    }
}

/// One entry's object block, as the serializer writes it.
pub open spec fn spec_entry_json(e: EntryView) -> Seq<char> {
    "  {\n    \"original_unit\": \""@ + esc_str(e.original_unit)
        + "\",\n    \"target_unit\": \""@ + esc_str(e.target_unit)
        + "\",\n    \"original_value\": "@ + spec_decimal_json(e.original_value)
        + ",\n    \"target_value\": "@ + spec_decimal_json(e.target_value) + "\n  }"@
}

/// The entry blocks of a ledger, joined by `,\n`.
pub open spec fn spec_entry_blocks(es: Seq<EntryView>) -> Seq<char>
    decreases es.len(),
{
    if es.len() == 0 {
        Seq::empty()
    } else if es.len() == 1 {
        spec_entry_json(es[0])
    } else {
        spec_entry_blocks(es.drop_last()) + ",\n"@ + spec_entry_json(es.last())
    }
}

/// The whole history file: `[]` for an empty ledger, otherwise the entry
/// blocks between bracket lines.
pub open spec fn spec_history_json(es: Seq<EntryView>) -> Seq<char> {
    if es.len() == 0 {
        "[]"@
    } else {
        "[\n"@ + spec_entry_blocks(es) + "\n]"@
    }
}

fn append_escaped(out: &mut String, s: &str)
    ensures
        final(out)@ == old(out)@ + esc_str(s@),
{
    proof {
        reveal_strlit("\\\"");
        reveal_strlit("\\\\");
    }
    let n = s.unicode_len();
    let mut i: usize = 0;
    proof {
        assert(out@ =~= old(out)@ + esc_str(s@.take(0)));
    }
    while i < n
        invariant
            n == s@.len(),
            0 <= i <= n,
            out@ == old(out)@ + esc_str(s@.take(i as int)),
        decreases n - i,
    {
        let c = s.get_char(i);
        if c == '"' {
            out.append("\\\"");
            proof {
                reveal_strlit("\\\"");
                assert("\\\""@ =~= esc_char(s@[i as int]));
            }
        } else if c == '\\' {
            out.append("\\\\");
            proof {
                reveal_strlit("\\\\");
                assert("\\\\"@ =~= esc_char(s@[i as int]));
            }
        } else {
            String::push(out, c);
            proof {
                assert(out@ =~= (old(out)@ + esc_str(s@.take(i as int))) + esc_char(s@[i as int]));
            }
        }
        proof {
            assert(s@.take(i as int + 1).drop_last() =~= s@.take(i as int));
            assert(s@.take(i as int + 1).last() == s@[i as int]);
            assert(esc_str(s@.take(i as int + 1)) == esc_str(s@.take(i as int)) + esc_char(
                s@[i as int],
            ));
            assert(out@ =~= old(out)@ + esc_str(s@.take(i as int + 1)));
        }
        i = i + 1;
    }
    proof {
        assert(s@.take(n as int) =~= s@);
    }
}

fn append_entry_json(out: &mut String, e: &HistoryEntry)
    requires
        entry_storable(e@),
    ensures
        final(out)@ == old(out)@ + spec_entry_json(e@),
{
    out.append("  {\n    \"original_unit\": \"");
    append_escaped(out, self_str(&e.original_unit));
    out.append("\",\n    \"target_unit\": \"");
    append_escaped(out, self_str(&e.target_unit));
    out.append("\",\n    \"original_value\": ");
    let ov = e.original_value.to_json_string();
    out.append(ov.as_str());
    out.append(",\n    \"target_value\": ");
    let tv = e.target_value.to_json_string();
    out.append(tv.as_str());
    out.append("\n  }");
    proof {
        assert(out@ =~= old(out)@ + spec_entry_json(e@));
    }
}

fn self_str(s: &String) -> (r: &str)
    ensures
        r@ == s@,
{
    s.as_str()
}

/// Serializes a ledger into the canonical history-file text.
pub fn save_history(history: &Vec<HistoryEntry>) -> (s: String)
    requires
        forall|i: int| 0 <= i < history@.len() ==> entry_storable(#[trigger] history@[i]@),
    ensures
        s@ == spec_history_json(history_views(history@)),
{
    let ghost views = history_views(history@);
    if history.len() == 0 {
        let s = String::from_str("[]");
        proof {
            assert(s@ =~= spec_history_json(views));
        }
        return s;
    }
    let mut s = String::from_str("[\n");
    let mut i: usize = 0;
    proof {
        assert(s@ =~= "[\n"@ + spec_entry_blocks(views.take(0)));
    }
    while i < history.len()
        invariant
            views == history_views(history@),
            views.len() == history@.len(),
            forall|k: int| 0 <= k < history@.len() ==> entry_storable(#[trigger] history@[k]@),
            0 <= i <= history@.len(),
            s@ == "[\n"@ + spec_entry_blocks(views.take(i as int)),
        decreases history@.len() - i,
    {
        if i > 0 {
            s.append(",\n");
        }
        append_entry_json(&mut s, &history[i]);
        proof {
            assert(views[i as int] == history@[i as int]@);
            assert(views.take(i as int + 1).drop_last() =~= views.take(i as int));
            assert(views.take(i as int + 1).last() == views[i as int]);
            if i == 0 {
                assert(views.take(1) =~= seq![views[0]]);
                assert(spec_entry_blocks(views.take(1)) == spec_entry_json(views[0]));
            }
            assert(s@ =~= "[\n"@ + spec_entry_blocks(views.take(i as int + 1)));
        }
        i = i + 1;
    }
    s.append("\n]");
    proof {
        assert(views.take(views.len() as int) =~= views);
        assert(s@ =~= spec_history_json(views));
    }
    s
}

// ------------------------------------------------------------------
// Parsing
// ------------------------------------------------------------------
/// The history file's content is not in the ledger's format.
#[derive(Debug, Clone, Copy, PartialEq, Eq, Structural)]
pub struct ParseError;

/// A JSON string body scanned from `i` up to its closing quote, with the
/// two escapes the serializer writes; the result is the decoded text and
/// the position after the quote.
pub open spec fn sp_string(s: Seq<char>, i: int, acc: Seq<char>) -> Option<(Seq<char>, int)>
    decreases s.len() - i
        when 0 <= i <= s.len()
{
    if i >= s.len() {
        None
    } else if s[i] == '"' {
        Some((acc, i + 1))
    } else if s[i] == '\\' {
        if i + 1 < s.len() && (s[i + 1] == '"' || s[i + 1] == '\\') {
            sp_string(s, i + 2, acc.push(s[i + 1]))
        } else {
            None
        }
    } else {
        sp_string(s, i + 1, acc.push(s[i]))
    }
}

fn scan_string(cs: &Vec<char>, start: usize) -> (r: Option<(String, usize)>)
    requires
        start <= cs@.len(),
    ensures
        match r {
            Some(x) => sp_string(cs@, start as int, Seq::empty()) == Some((x.0@, x.1 as int))
                && start < x.1 <= cs@.len(),
            None => sp_string(cs@, start as int, Seq::empty()) is None,
        },
{
    let mut acc = String::new();
    let mut j = start;
    loop
        invariant
            start <= j <= cs@.len(),
            sp_string(cs@, start as int, Seq::empty()) == sp_string(cs@, j as int, acc@),
        decreases cs@.len() - j,
    {
        if j == cs.len() {
            return None;
        }
        let c = cs[j];
        if c == '"' {
            return Some((acc, j + 1));
        }
        if c == '\\' {
            if j + 1 < cs.len() && (cs[j + 1] == '"' || cs[j + 1] == '\\') {
                String::push(&mut acc, cs[j + 1]);
                j = j + 2;
            } else {
                return None;
            }
        } else {
            String::push(&mut acc, c);
            j = j + 1;
        }
    }
}

/// A stored number scanned from `i`: an optional minus sign, one to
/// eighteen integer digits, a point, and one to twelve fraction digits.
/// The result is the value scaled by 10^12 and the position after it.
pub open spec fn sp_number(s: Seq<char>, i: int) -> Option<(int, int)>
    recommends
        0 <= i <= s.len(),
{
    let neg = i < s.len() && s[i] == '-';
    let i0 = if neg {
        i + 1
    } else {
        i
    };
    let t = crate::scan::sp_digits(s, i0, 0, 0);
    if !(1 <= t.1 <= 18) {
        None
    } else if !(t.2 < s.len() && s[t.2] == '.') {
        None
    } else {
        let f = crate::scan::sp_digits(s, t.2 + 1, 0, 0);
        if !(1 <= f.1 <= 12) {
            None
        } else {
            let scaled = t.0 * 1_000_000_000_000 + f.0 * crate::scan::pow10((12 - f.1) as nat);
            Some(
                (
                    if neg {
                        -scaled
                    } else {
                        scaled
                    },
                    f.2,
                ),
            )
        }
    }
}

fn scan_number(cs: &Vec<char>, start: usize) -> (r: Option<(i128, usize)>)
    requires
        start <= cs@.len(),
    ensures
        match r {
            Some(x) => sp_number(cs@, start as int) == Some((x.0 as int, x.1 as int)) && start
                <= x.1 <= cs@.len() && -2_000_000_000_000_000_000_000_000_000_000 <= x.0
                <= 2_000_000_000_000_000_000_000_000_000_000,
            None => sp_number(cs@, start as int) is None,
        },
{
    let mut j = start;
    let neg = j < cs.len() && cs[j] == '-';
    if neg {
        j = j + 1;
    }
    let intpart = crate::scan::scan_digits(cs, j);
    match intpart {
        None => None,
        Some((iv, ic, j1)) => {
            if ic < 1 || ic > 18 {
                return None;
            }
            if j1 == cs.len() {
                return None;
            }
            if cs[j1] != '.' {
                return None;
            }
            let fracpart = crate::scan::scan_digits(cs, j1 + 1);
            match fracpart {
                None => None,
                Some((fv, fc, j2)) => {
                    if fc < 1 || fc > 12 {
                        return None;
                    }
                    let p = crate::scan::pow10_i128(12 - fc);
                    proof {
                        crate::scan::lemma_pow10_adds(fc as nat, (12 - fc) as nat);
                        crate::scan::lemma_pow10_pos((12 - fc) as nat);
                        crate::scan::lemma_pow10_12();
                        crate::scan::lemma_pow10_le(fc as nat, 12);
                        assert(fv * p < crate::scan::pow10(fc as nat) * crate::scan::pow10(
                            (12 - fc) as nat,
                        )) by (nonlinear_arith)
                            requires
                                0 <= fv < crate::scan::pow10(fc as nat),
                                p == crate::scan::pow10((12 - fc) as nat),
                                p >= 1,
                        ;
                        assert(fv * p >= 0) by (nonlinear_arith)
                            requires
                                fv >= 0 && p >= 1,
                        ;
                    }
                    let scaled = iv * 1_000_000_000_000 + fv * p;
                    let v = if neg {
                        -scaled
                    } else {
                        scaled
                    };
                    Some((v, j2))
                },
            }
        },
    }
}

/// One entry's object block parsed from `i`: exactly the form the
/// serializer writes, yielding the entry and the position after the
/// block's closing brace.
pub open spec fn sp_entry(s: Seq<char>, i: int) -> Option<(EntryView, int)> {
    match crate::scan::sp_lit(s, i, "  {\n    \"original_unit\": \""@) {
        Option::None => None,
        Option::Some(i1) => match sp_string(s, i1, Seq::empty()) {
            Option::None => None,
            Option::Some((ou, i2)) => match crate::scan::sp_lit(
                s,
                i2,
                ",\n    \"target_unit\": \""@,
            ) {
                Option::None => None,
                Option::Some(i3) => match sp_string(s, i3, Seq::empty()) {
                    Option::None => None,
                    Option::Some((tu, i4)) => match crate::scan::sp_lit(
                        s,
                        i4,
                        ",\n    \"original_value\": "@,
                    ) {
                        Option::None => None,
                        Option::Some(i5) => match sp_number(s, i5) {
                            Option::None => None,
                            Option::Some((ov, i6)) => match crate::scan::sp_lit(
                                s,
                                i6,
                                ",\n    \"target_value\": "@,
                            ) {
                                Option::None => None,
                                Option::Some(i7) => match sp_number(s, i7) {
                                    Option::None => None,
                                    Option::Some((tv, i8)) => match crate::scan::sp_lit(
                                        s,
                                        i8,
                                        "\n  }"@,
                                    ) {
                                        Option::None => None,
                                        Option::Some(i9) => Some(
                                            (
                                                EntryView {
                                                    original_unit: ou,
                                                    target_unit: tu,
                                                    original_value: ov,
                                                    target_value: tv,
                                                },
                                                i9,
                                            ),
                                        ),
                                    },
                                },
                            },
                        },
                    },
                },
            },
        },
    }
}

fn scan_entry(cs: &Vec<char>, start: usize) -> (r: Option<(HistoryEntry, usize)>)
    requires
        start <= cs@.len(),
    ensures
        match r {
            Some(x) => sp_entry(cs@, start as int) == Some((x.0@, x.1 as int)) && start < x.1
                <= cs@.len() && entry_storable(x.0@),
            None => sp_entry(cs@, start as int) is None,
        },
{
    let i1 = match crate::scan::eat_lit(cs, start, "  {\n    \"original_unit\": \"") {
        None => {
            return None;
        },
        Some(v) => v,
    };
    let (ou, i2) = match scan_string(cs, i1) {
        None => {
            return None;
        },
        Some(v) => v,
    };
    let i3 = match crate::scan::eat_lit(cs, i2, ",\n    \"target_unit\": \"") {
        None => {
            return None;
        },
        Some(v) => v,
    };
    let (tu, i4) = match scan_string(cs, i3) {
        None => {
            return None;
        },
        Some(v) => v,
    };
    let i5 = match crate::scan::eat_lit(cs, i4, ",\n    \"original_value\": ") {
        None => {
            return None;
        },
        Some(v) => v,
    };
    let (ov, i6) = match scan_number(cs, i5) {
        None => {
            return None;
        },
        Some(v) => v,
    };
    let i7 = match crate::scan::eat_lit(cs, i6, ",\n    \"target_value\": ") {
        None => {
            return None;
        },
        Some(v) => v,
    };
    let (tv, i8) = match scan_number(cs, i7) {
        None => {
            return None;
        },
        Some(v) => v,
    };
    let i9 = match crate::scan::eat_lit(cs, i8, "\n  }") {
        None => {
            return None;
        },
        Some(v) => v,
    };
    let entry = HistoryEntry {
        original_unit: ou,
        target_unit: tu,
        original_value: Decimal::from_scaled(ov),
        target_value: Decimal::from_scaled(tv),
    };
    Some((entry, i9))
}

/// The entries of a non-empty history file from `i` to its closing
/// bracket: blocks separated by `,\n` and closed by `\n]` at the very end
/// of the text. The fuel only bounds the recursion; every entry consumes
/// text, so a fuel of one more than the text's length never runs out.
pub open spec fn sp_entries(s: Seq<char>, i: int, acc: Seq<EntryView>, fuel: nat) -> Option<
    Seq<EntryView>,
>
    decreases fuel,
{
    if fuel == 0 {
        None
    } else {
        match sp_entry(s, i) {
            Option::None => None,
            Option::Some((e, j)) => match crate::scan::sp_lit(s, j, ",\n"@) {
                Option::Some(j2) => sp_entries(s, j2, acc.push(e), (fuel - 1) as nat),
                Option::None => {
                    if crate::scan::sp_lit(s, j, "\n]"@) == Some(s.len() as int) {
                        Some(acc.push(e))
                    } else {
                        None
                    }
                },
            },
        }
    }
}

/// What a history file's text denotes: `[]` is the empty ledger, and
/// otherwise the text must be exactly the serializer's canonical form of
/// a non-empty ledger.
pub open spec fn sp_history(s: Seq<char>) -> Option<Seq<EntryView>> {
    if s == "[]"@ {
        Some(Seq::empty())
    } else {
        match crate::scan::sp_lit(s, 0, "[\n"@) {
            Option::None => None,
            Option::Some(i) => sp_entries(s, i, Seq::empty(), (s.len() + 1) as nat),
        }
    }
}

/// Parses a history file's text back into the ledger. Succeeds exactly on
/// the canonical form the serializer writes; everything else is a
/// `ParseError`.
pub fn load_history(text: &str) -> (r: Result<Vec<HistoryEntry>, ParseError>)
    ensures
        match r {
            Ok(v) => sp_history(text@) == Some(history_views(v@)) && forall|k: int|
                0 <= k < v@.len() ==> entry_storable(#[trigger] v@[k]@),
            Err(_) => sp_history(text@) is None,
        },
{
    let cs = crate::scan::str_to_chars(text);
    proof {
        reveal_strlit("[]");
    }
    if cs.len() == 2 {
        if let Some(_) = crate::scan::eat_lit(&cs, 0, "[]") {
            proof {
                assert(cs@.subrange(0, 2) =~= cs@);
            }
            let out: Vec<HistoryEntry> = Vec::new();
            proof {
                assert(history_views(out@) =~= Seq::<EntryView>::empty());
            }
            return Ok(out);
        }
        proof {
            reveal_strlit("[]");
            assert(cs@.subrange(0, 2) =~= cs@);
            assert(text@ != "[]"@);
        }
    } else {
        proof {
            reveal_strlit("[]");
            assert(text@ != "[]"@);
        }
    }
    let start = match crate::scan::eat_lit(&cs, 0, "[\n") {
        None => {
            return Err(ParseError);
        },
        Some(v) => v,
    };
    let ghost i0 = start as int;
    let ghost s = cs@;
    let mut out: Vec<HistoryEntry> = Vec::new();
    let mut j = start;
    proof {
        assert(history_views(out@) =~= Seq::<EntryView>::empty());
    }
    loop
        invariant
            s == cs@,
            s == text@,
            text@ != "[]"@,
            crate::scan::sp_lit(s, 0, "[\n"@) == Some(i0),
            0 <= i0 <= j <= s.len(),
            s.len() <= usize::MAX,
            out@.len() <= j,
            forall|k: int| 0 <= k < out@.len() ==> entry_storable(#[trigger] out@[k]@),
            sp_entries(s, j as int, history_views(out@), (s.len() + 1 - out@.len()) as nat)
                == sp_entries(s, i0, Seq::empty(), (s.len() + 1) as nat),
        decreases s.len() - j,
    {
        let (e, j2) = match scan_entry(&cs, j) {
            None => {
                proof {
                    assert((s.len() + 1 - out@.len()) as nat >= 1);
                }
                return Err(ParseError);
            },
            Some(v) => v,
        };
        let ghost old_views = history_views(out@);
        out.push(e);
        proof {
            assert(history_views(out@) =~= old_views.push(e@));
        }
        match crate::scan::eat_lit(&cs, j2, ",\n") {
            Some(j3) => {
                j = j3;
            },
            None => {
                match crate::scan::eat_lit(&cs, j2, "\n]") {
                    Some(k) => {
                        if k == cs.len() {
                            return Ok(out);
                        }
                        return Err(ParseError);
                    },
                    None => {
                        return Err(ParseError);
                    },
                }
            },
        }
    }
}

// ------------------------------------------------------------------
// Display rendering
// ------------------------------------------------------------------
/// One displayed history line: the 1-based position, both values rounded
/// to four decimal places, each followed by its stored unit symbol.
pub open spec fn spec_history_line(pos: nat, e: EntryView) -> Seq<char> {
    dec_digits(pos) + ". "@ + spec_decimal_4dp(e.original_value) + " "@ + e.original_unit
        + " = "@ + spec_decimal_4dp(e.target_value) + " "@ + e.target_unit + "\n"@
}

/// The lines of a displayed ledger, in order.
pub open spec fn spec_history_lines(es: Seq<EntryView>) -> Seq<char>
    decreases es.len(),
{
    if es.len() == 0 {
        Seq::empty()
    } else {
        spec_history_lines(es.drop_last()) + spec_history_line(es.len(), es.last())
    }
}

/// The whole display: a notice for an empty ledger, otherwise a header
/// line followed by one line per entry.
pub open spec fn spec_history_rendering(es: Seq<EntryView>) -> Seq<char> {
    if es.len() == 0 {
        "Conversion History is empty.\n"@
    } else {
        "Conversion History:\n"@ + spec_history_lines(es)
    }
}

/// Renders a loaded ledger for display, one numbered line per entry in
/// ledger order, values rounded to four decimal places; an empty ledger
/// renders as a single notice line.
pub fn display_history(history: &Vec<HistoryEntry>) -> (s: String)
    requires
        forall|i: int| 0 <= i < history@.len() ==> entry_storable(#[trigger] history@[i]@),
    ensures
        s@ == spec_history_rendering(history_views(history@)),
{
    proof {
        reveal_strlit(". ");
        reveal_strlit(" ");
        reveal_strlit(" = ");
        reveal_strlit("\n");
    }
    let ghost views = history_views(history@);
    if history.len() == 0 {
        let s = String::from_str("Conversion History is empty.\n");
        proof {
            assert(s@ =~= spec_history_rendering(views));
        }
        return s;
    }
    let mut s = String::from_str("Conversion History:\n");
    let mut i: usize = 0;
    proof {
        assert(s@ =~= "Conversion History:\n"@ + spec_history_lines(views.take(0)));
    }
    while i < history.len()
        invariant
            views == history_views(history@),
            views.len() == history@.len(),
            forall|k: int| 0 <= k < history@.len() ==> entry_storable(#[trigger] history@[k]@),
            0 <= i <= history@.len(),
            s@ == "Conversion History:\n"@ + spec_history_lines(views.take(i as int)),
        decreases history@.len() - i,
    {
        let entry = &history[i];
        proof {
            assert(entry_storable(history@[i as int]@));
        }
        let pos = crate::numfmt::u128_to_string((i as u128) + 1);
        s.append(pos.as_str());
        s.append(". ");
        let ov = entry.original_value.to_4dp_string();
        s.append(ov.as_str());
        s.append(" ");
        s.append(self_str(&entry.original_unit));
        s.append(" = ");
        let tv = entry.target_value.to_4dp_string();
        s.append(tv.as_str());
        s.append(" ");
        s.append(self_str(&entry.target_unit));
        s.append("\n");
        proof {
            assert(views[i as int] == history@[i as int]@);
            assert(views.take(i as int + 1).drop_last() =~= views.take(i as int));
            assert(views.take(i as int + 1).last() == views[i as int]);
            assert(views.take(i as int + 1).len() == i + 1);
            assert(s@ =~= "Conversion History:\n"@ + spec_history_lines(views.take(i as int + 1)));
        }
        i = i + 1;
    }
    proof {
        assert(views.take(views.len() as int) =~= views);
    }
    s
}

} // verus!
