//! The layout of one rendered line:
//! `[<elapsed seconds, 6 decimals> <LEVEL>](<span chain>)(<module>): <message>\n`.

use vstd::prelude::*;
use vstd::string::*;
use crate::digits::{decimal, fixed_digits, push_decimal, push_fixed_digits};
use crate::level::Severity;

verus! {

/// A duration of `secs` seconds and `nanos` nanoseconds, rounded to the
/// nearest microsecond (halves round up), in microseconds.
pub open spec fn rounded_micros(secs: nat, nanos: nat) -> nat {
    secs * 1_000_000 + (nanos + 500) / 1000
}

/// A duration in seconds with exactly six digits after the decimal point.
pub open spec fn elapsed_text(secs: nat, nanos: nat) -> Seq<char> {
    let m = rounded_micros(secs, nanos);
    decimal(m / 1_000_000) + seq!['.'] + fixed_digits(m % 1_000_000, 6)
}

/// The display label of a severity.
pub open spec fn label_of(level: Severity) -> Seq<char> {
    match level {
        Severity::Error => seq!['E', 'R', 'R', 'O', 'R'],
        Severity::Warn => seq!['W', 'A', 'R', 'N'],
        Severity::Info => seq!['I', 'N', 'F', 'O'],
        Severity::Debug => seq!['D', 'E', 'B', 'U', 'G'],
        Severity::Trace => seq!['T', 'R', 'A', 'C', 'E'],
    }
}

/// What stands between two span names in the chain.
pub open spec fn separator() -> Seq<char> {
    seq![' ', '|', ' ']
}

/// The span names, outermost first, joined by the separator; empty for no spans.
pub open spec fn span_chain(names: Seq<Seq<char>>) -> Seq<char>
    decreases names.len(),
{
    if names.len() == 0 {
        Seq::empty()
    } else if names.len() == 1 {
        names[0]
    } else {
        span_chain(names.drop_last()) + separator() + names.last()
    }
}

/// What is shown when an event names no module.
pub open spec fn no_module() -> Seq<char> {
    seq!['n', 'o', ' ', 'm', 'o', 'd', 'u', 'l', 'e']
}

/// The module segment: the module path, or `no module` when there is none.
pub open spec fn module_text(module: Option<Seq<char>>) -> Seq<char> {
    match module {
        Some(m) => m,
        None => no_module(),
    }
}

/// The whole line, newline included.
pub open spec fn line_text(
    secs: nat,
    nanos: nat,
    level: Severity,
    spans: Seq<Seq<char>>,
    module: Option<Seq<char>>,
    message: Seq<char>,
) -> Seq<char> {
    seq!['['] + elapsed_text(secs, nanos) + seq![' '] + label_of(level) + seq![']', '(']
        + span_chain(spans) + seq![')', '('] + module_text(module) + seq![')', ':', ' ']
        + message + seq!['\n']
}

/// The view of an optional string slice.
pub open spec fn opt_view(module: Option<&str>) -> Option<Seq<char>> {
    match module {
        Some(m) => Some(m@),
        None => None,
    }
}

/// The label of a severity: one of `ERROR`, `WARN`, `INFO`, `DEBUG`, `TRACE`.
pub fn level_label(level: Severity) -> (r: &'static str)
    ensures
        r@ == label_of(level),
{
    proof {
        reveal_strlit("ERROR");
        reveal_strlit("WARN");
        reveal_strlit("INFO");
        reveal_strlit("DEBUG");
        reveal_strlit("TRACE");
    }
    let r = match level {
        Severity::Error => "ERROR",
        Severity::Warn => "WARN",
        Severity::Info => "INFO",
        Severity::Debug => "DEBUG",
        Severity::Trace => "TRACE",
    };
    assert(r@ =~= label_of(level));
    r
}

/// The module path of an event, or `no module` when it has none.
pub fn module_or_default(module: Option<&str>) -> (r: &str)
    ensures
        r@ == module_text(opt_view(module)),
{
    match module {
        Some(m) => m,
        None => {
            proof {
                reveal_strlit("no module");
            }
            let r = "no module";
            assert(r@ =~= no_module());
            r
        },
    }
}

/// Joins span names, outermost first, with ` | ` between neighbours.
pub fn join_span_names(names: &Vec<String>) -> (r: String)
    ensures
        r@ == span_chain(names.deep_view()),
{
    let mut out = String::new();
    let mut i: usize = 0;
    while i < names.len()
        invariant
            i <= names.len(),
            out@ == span_chain(names.deep_view().take(i as int)),
        decreases names.len() - i,
    {
        proof {
            reveal_strlit(" | ");
        }
        let ghost before = out@;
        if i > 0 {
            out.append(" | ");
        }
        out.append(names[i].as_str());
        proof {
            let all = names.deep_view();
            let next = all.take(i + 1);
            assert(next.drop_last() =~= all.take(i as int));
            assert(next.last() == names@[i as int]@);
            if i == 0 {
                assert(before =~= Seq::<char>::empty());
                assert(out@ =~= span_chain(next));
            } else {
                assert(out@ =~= span_chain(next));
            }
        }
        i = i + 1;
    }
    assert(names.deep_view().take(names.len() as int) =~= names.deep_view());
    out
}

/// Appends a duration of `secs` seconds and `nanos` nanoseconds to `out`, in
/// seconds, rounded to the microsecond, with exactly six decimals.
pub fn push_elapsed(out: &mut String, secs: u64, nanos: u32)
    ensures
        final(out)@ == old(out)@ + elapsed_text(secs as nat, nanos as nat),
{
    let micros: u128 = (secs as u128) * 1_000_000 + ((nanos as u128) + 500) / 1000;
    assert(micros == rounded_micros(secs as nat, nanos as nat));
    push_decimal(out, micros / 1_000_000);
    proof {
        reveal_strlit(".");
    }
    out.append(".");
    push_fixed_digits(out, micros % 1_000_000, 6);
    assert(final(out)@ =~= old(out)@ + elapsed_text(secs as nat, nanos as nat));
}

/// Renders one event as a line: elapsed time, severity label, span chain,
/// module path (or `no module`), message, and a closing newline.
pub fn format_line(
    secs: u64,
    nanos: u32,
    level: Severity,
    spans: &Vec<String>,
    module: Option<&str>,
    message: &str,
) -> (r: String)
    ensures
        r@ == line_text(
            secs as nat,
            nanos as nat,
            level,
            spans.deep_view(),
            opt_view(module),
            message@,
        ),
{
    proof {
        reveal_strlit("[");
        reveal_strlit(" ");
        reveal_strlit("](");
        reveal_strlit(")(");
        reveal_strlit("): ");
        reveal_strlit("\n");
    }
    let mut out = String::new();
    out.append("[");
    push_elapsed(&mut out, secs, nanos);
    out.append(" ");
    out.append(level_label(level));
    out.append("](");
    let chain = join_span_names(spans);
    out.append(chain.as_str());
    out.append(")(");
    out.append(module_or_default(module));
    out.append("): ");
    out.append(message);
    out.append("\n");
    assert(out@ =~= line_text(
        secs as nat,
        nanos as nat,
        level,
        spans.deep_view(),
        opt_view(module),
        message@,
    ));
    out
}

/// How many times `c` occurs in `s`.
pub open spec fn count_char(s: Seq<char>, c: char) -> nat
    decreases s.len(),
{
    if s.len() == 0 {
        0
    } else {
        count_char(s.drop_last(), c) + if s.last() == c {
            1nat
        } else {
            0nat
        }
    }
}

proof fn lemma_count_char_concat(a: Seq<char>, b: Seq<char>, c: char)
    ensures
        count_char(a + b, c) == count_char(a, c) + count_char(b, c),
    decreases b.len(),
{
    if b.len() == 0 {
        assert(a + b =~= a);
    } else {
        lemma_count_char_concat(a, b.drop_last(), c);
        assert((a + b).drop_last() =~= a + b.drop_last());
        assert((a + b).last() == b.last());
    }
}

/// How many times the separator occurs in `s`, overlaps included.
pub open spec fn separator_count(s: Seq<char>) -> nat
    decreases s.len(),
{
    if s.len() < 3 {
        0
    } else {
        separator_count(s.drop_last()) + if s.subrange(s.len() - 3, s.len() as int)
            == separator() {
            1nat
        } else {
            0nat
        }
    }
}

/// Every `|` in `s` stands between two spaces.
pub open spec fn bars_spaced(s: Seq<char>) -> bool {
    forall|i: int|
        0 <= i < s.len() && #[trigger] s[i] == '|' ==> 1 <= i < s.len() - 1 && s[i - 1] == ' '
            && s[i + 1] == ' '
}

/// Every `|` of `s` but one in last place stands between two spaces.
spec fn bars_spaced_but_last(s: Seq<char>) -> bool {
    forall|i: int|
        0 <= i < s.len() - 1 && #[trigger] s[i] == '|' ==> 1 <= i && s[i - 1] == ' ' && s[i
            + 1] == ' '
}

proof fn lemma_separator_count_bars(s: Seq<char>)
    requires
        s.len() >= 1,
        bars_spaced_but_last(s),
    ensures
        separator_count(s) == count_char(s.drop_last(), '|'),
    decreases s.len(),
{
    let p = s.drop_last();
    let l = s.len() as int;
    if l >= 2 {
        assert forall|i: int| 0 <= i < p.len() - 1 && #[trigger] p[i] == '|' implies 1 <= i
            && p[i - 1] == ' ' && p[i + 1] == ' ' by {
            assert(s[i] == '|');
        }
        lemma_separator_count_bars(p);
        assert(p.last() == s[l - 2]);
        assert(p.drop_last() =~= s.drop_last().drop_last());
        if l >= 3 {
            let tail = s.subrange(l - 3, l);
            if s[l - 2] == '|' {
                assert(tail =~= separator());
            } else {
                assert(tail[1] == s[l - 2]);
            }
        } else {
            assert(p.drop_last() =~= Seq::<char>::empty());
            if s[0] == '|' {
                assert(s[l - 2] == s[0]);
            }
        }
    } else {
        assert(p =~= Seq::<char>::empty());
    }
}

proof fn lemma_span_chain_bars_spaced(names: Seq<Seq<char>>)
    requires
        forall|i: int| 0 <= i < names.len() ==> count_char(#[trigger] names[i], '|') == 0,
    ensures
        bars_spaced(span_chain(names)),
    decreases names.len(),
{
    if names.len() == 1 {
        lemma_no_bar(names[0]);
    } else if names.len() > 1 {
        let rest = names.drop_last();
        assert forall|i: int| 0 <= i < rest.len() implies count_char(#[trigger] rest[i], '|') == 0 by {
            assert(rest[i] == names[i]);
        }
        lemma_span_chain_bars_spaced(rest);
        let head = span_chain(rest);
        let last = names.last();
        assert(last == names[names.len() - 1]);
        lemma_no_bar(last);
        let c = head + separator() + last;
        assert(c == span_chain(names));
        let h = head.len() as int;
        assert forall|i: int| 0 <= i < c.len() && #[trigger] c[i] == '|' implies 1 <= i < c.len()
            - 1 && c[i - 1] == ' ' && c[i + 1] == ' ' by {
            if i < h {
                assert(c[i] == head[i]);
                assert(c[i - 1] == head[i - 1]);
                assert(c[i + 1] == head[i + 1]);
            } else if i >= h + 3 {
                assert(c[i] == last[i - h - 3]);
            } else {
                assert(c[i] == separator()[i - h]);
            }
        }
    }
}

proof fn lemma_no_bar(s: Seq<char>)
    requires
        count_char(s, '|') == 0,
    ensures
        forall|i: int| 0 <= i < s.len() ==> s[i] != '|',
    decreases s.len(),
{
    if s.len() > 0 {
        lemma_no_bar(s.drop_last());
        assert forall|i: int| 0 <= i < s.len() implies s[i] != '|' by {
            if i < s.len() - 1 {
                assert(s[i] == s.drop_last()[i]);
            }
        }
    }
}

/// A chain of no spans is empty; a chain of `n >= 1` spans whose names hold
/// no `|` holds the separator exactly `n - 1` times.
pub proof fn lemma_span_chain_separators(names: Seq<Seq<char>>)
    requires
        forall|i: int| 0 <= i < names.len() ==> count_char(#[trigger] names[i], '|') == 0,
    ensures
        names.len() == 0 ==> span_chain(names) == Seq::<char>::empty(),
        names.len() >= 1 ==> separator_count(span_chain(names)) == names.len() - 1,
{
    if names.len() >= 1 {
        lemma_span_chain_bars(names);
        lemma_span_chain_bars_spaced(names);
        let c = span_chain(names);
        if c.len() > 0 {
            assert(c.drop_last() + seq![c.last()] =~= c);
            lemma_count_char_concat(c.drop_last(), seq![c.last()], '|');
            assert(count_char(seq![c.last()], '|') == 0) by {
                assert(seq![c.last()].drop_last() =~= Seq::<char>::empty());
                assert(c[c.len() - 1] != '|');
            }
            lemma_separator_count_bars(c);
        }
    }
}

proof fn lemma_span_chain_bars(names: Seq<Seq<char>>)
    requires
        forall|i: int| 0 <= i < names.len() ==> count_char(#[trigger] names[i], '|') == 0,
    ensures
        names.len() >= 1 ==> count_char(span_chain(names), '|') == names.len() - 1,
    decreases names.len(),
{
    if names.len() > 1 {
        let rest = names.drop_last();
        assert forall|i: int| 0 <= i < rest.len() implies count_char(#[trigger] rest[i], '|') == 0 by {
            assert(rest[i] == names[i]);
        }
        lemma_span_chain_bars(rest);
        lemma_count_char_concat(span_chain(rest), separator(), '|');
        lemma_count_char_concat(span_chain(rest) + separator(), names.last(), '|');
        assert(names.last() == names[names.len() - 1]);
        assert(count_char(separator(), '|') == 1) by {
            reveal_with_fuel(count_char, 4);
        }
    }
}

/// Rounding to the microsecond keeps the order of durations: a later
/// instant never shows a smaller elapsed time than an earlier one.
pub proof fn lemma_elapsed_monotonic(secs1: nat, nanos1: nat, secs2: nat, nanos2: nat)
    requires
        nanos1 < 1_000_000_000,
        nanos2 < 1_000_000_000,
        secs1 < secs2 || (secs1 == secs2 && nanos1 <= nanos2),
    ensures
        rounded_micros(secs1, nanos1) <= rounded_micros(secs2, nanos2),
{
    if secs1 < secs2 {
        assert((nanos1 + 500) / 1000 <= 1_000_000);
        assert(secs1 * 1_000_000 + 1_000_000 <= secs2 * 1_000_000) by (nonlinear_arith)
            requires
                secs1 < secs2,
        ;
    } else {
        assert((nanos1 + 500) / 1000 <= (nanos2 + 500) / 1000) by (nonlinear_arith)
            requires
                nanos1 <= nanos2,
        ;
    }
}

/// Whether `c` is a decimal digit.
pub open spec fn is_digit(c: char) -> bool {
    '0' <= c && c <= '9'
}

proof fn lemma_decimal_digits(n: nat)
    ensures
        decimal(n).len() >= 1,
        forall|i: int| 0 <= i < decimal(n).len() ==> is_digit(#[trigger] decimal(n)[i]),
    decreases n,
{
    if n >= 10 {
        lemma_decimal_digits(n / 10);
    }
}

proof fn lemma_fixed_digits_digits(n: nat, width: nat)
    ensures
        fixed_digits(n, width).len() == width,
        forall|i: int| 0 <= i < width ==> is_digit(#[trigger] fixed_digits(n, width)[i]),
    decreases width,
{
    if width > 0 {
        lemma_fixed_digits_digits(n / 10, (width - 1) as nat);
    }
}

/// Elapsed time is shown as digits, one decimal point, and exactly six
/// digits after it.
pub proof fn lemma_elapsed_six_decimals(secs: nat, nanos: nat)
    ensures
        ({
            let t = elapsed_text(secs, nanos);
            &&& t.len() >= 8
            &&& t[t.len() - 7] == '.'
            &&& forall|i: int| 0 <= i < t.len() && i != t.len() - 7 ==> is_digit(#[trigger] t[i])
        }),
{
    let m = rounded_micros(secs, nanos);
    lemma_decimal_digits(m / 1_000_000);
    lemma_fixed_digits_digits(m % 1_000_000, 6);
    let w = decimal(m / 1_000_000);
    let f = fixed_digits(m % 1_000_000, 6);
    let t = elapsed_text(secs, nanos);
    assert(t == w + seq!['.'] + f);
    assert forall|i: int| 0 <= i < t.len() && i != t.len() - 7 implies is_digit(#[trigger] t[i]) by {
        if i < w.len() {
            assert(t[i] == w[i]);
        } else {
            assert(t[i] == f[i - w.len() - 1]);
        }
    }
}

} // verus!
