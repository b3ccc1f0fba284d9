//! Timing of RPC calls: the level at which the timings are logged and the
//! text of the log lines.

use vstd::prelude::*;
use vstd::string::*;
use crate::text::{decimal, push_decimal, trim, eq_ignore_ascii_case, trim_white_space, text_eq_ignore_ascii_case, lemma_trim_idempotent};

verus! {

/// Level of a log line, from the most to the least severe.
#[derive(Debug, PartialEq, Eq, Structural, Clone, Copy)]
pub enum LogLevel {
    Error,
    Warn,
    Info,
    Debug,
    Trace,
}

/// A service wrapped so that every call, batch and notification it handles
/// is timed and logged at `level`.
pub struct RpcTimingMiddleware<S> {
    pub service: S,
    pub level: LogLevel,
}

/// The level that a configured text names, and the text itself when it names
/// no level. No text, or only whitespace, means `Trace`; otherwise the
/// trimmed text is compared with the level names without regard to ASCII
/// case, and an unknown name also means `Trace`.
pub open spec fn spec_parse_level(raw: Option<Seq<char>>) -> (LogLevel, Option<Seq<char>>) {
    match raw {
        None => (LogLevel::Trace, None),
        Some(s) => {
            let t = trim(s);
            if t.len() == 0 {
                (LogLevel::Trace, None)
            } else if eq_ignore_ascii_case(t, "error"@) {
                (LogLevel::Error, None)
            } else if eq_ignore_ascii_case(t, "warn"@) {
                (LogLevel::Warn, None)
            } else if eq_ignore_ascii_case(t, "info"@) {
                (LogLevel::Info, None)
            } else if eq_ignore_ascii_case(t, "debug"@) {
                (LogLevel::Debug, None)
            } else if eq_ignore_ascii_case(t, "trace"@) {
                (LogLevel::Trace, None)
            } else {
                (LogLevel::Trace, Some(t))
            }
        },
    }
}

/// Reads the configured log level of RPC timings. The second part of the
/// result holds the trimmed text when it names no level.
pub fn parse_rpc_timing_log_level(raw: Option<&str>) -> (res: (LogLevel, Option<String>))
    ensures
        res.0 == spec_parse_level(
            match raw {
                Some(s) => Some(s@),
                None => None,
            },
        ).0,
        match res.1 {
            Some(t) => spec_parse_level(
                match raw {
                    Some(s) => Some(s@),
                    None => None,
                },
            ).1 == Some(t@),
            None => spec_parse_level(
                match raw {
                    Some(s) => Some(s@),
                    None => None,
                },
            ).1 is None,
        },
{
    let s = match raw {
        None => {
            return (LogLevel::Trace, None);
        },
        Some(s) => s,
    };
    let level_str = trim_white_space(s);
    if level_str.unicode_len() == 0 {
        (LogLevel::Trace, None)
    } else if text_eq_ignore_ascii_case(level_str, "error") {
        (LogLevel::Error, None)
    } else if text_eq_ignore_ascii_case(level_str, "warn") {
        (LogLevel::Warn, None)
    } else if text_eq_ignore_ascii_case(level_str, "info") {
        (LogLevel::Info, None)
    } else if text_eq_ignore_ascii_case(level_str, "debug") {
        (LogLevel::Debug, None)
    } else if text_eq_ignore_ascii_case(level_str, "trace") {
        (LogLevel::Trace, None)
    } else {
        (LogLevel::Trace, Some(level_str.to_owned()))
    }
}

/// The name of a level, as the configuration writes it.
pub open spec fn level_name(l: LogLevel) -> Seq<char> {
    match l {
        LogLevel::Error => "error"@,
        LogLevel::Warn => "warn"@,
        LogLevel::Info => "info"@,
        LogLevel::Debug => "debug"@,
        LogLevel::Trace => "trace"@,
    }
}

/// Reading a text again after trimming it gives the same level: the
/// configured text counts only up to surrounding whitespace.
pub proof fn lemma_parse_level_ignores_surrounding_space(s: Seq<char>)
    ensures
        spec_parse_level(Some(s)) == spec_parse_level(Some(trim(s))),
{
    lemma_trim_idempotent(s);
}

/// Every level is read back from its own name.
pub proof fn lemma_parse_level_name(l: LogLevel)
    ensures
        spec_parse_level(Some(level_name(l))) == (l, None::<Seq<char>>),
{
    reveal_strlit("error");
    reveal_strlit("warn");
    reveal_strlit("info");
    reveal_strlit("debug");
    reveal_strlit("trace");
    let n = level_name(l);
    assert(trim(n) == n) by {
        assert(!crate::text::is_white_space(n[0]));
        assert(!crate::text::is_white_space(n.last()));
        assert(crate::text::trim_start(n) == n);
        assert(crate::text::trim_end(n) == n);
    }
    assert(eq_ignore_ascii_case(n, n));
    match l {
        LogLevel::Error => {},
        LogLevel::Warn => {
            assert(!eq_ignore_ascii_case(n, "error"@));
        },
        LogLevel::Info => {
            assert(!eq_ignore_ascii_case(n, "error"@));
            assert(!eq_ignore_ascii_case(n, "warn"@));
        },
        LogLevel::Debug => {
            assert(!eq_ignore_ascii_case(n, "error"@));
            assert(!eq_ignore_ascii_case(n, "warn"@));
            assert(!eq_ignore_ascii_case(n, "info"@));
        },
        LogLevel::Trace => {},
    }
}

/// The log line of a completed call.
pub open spec fn call_line(method: Seq<char>, id: Seq<char>, elapsed_us: nat) -> Seq<char> {
    "rpc.call completed method="@ + method + " id="@ + id + " elapsed_us="@ + decimal(elapsed_us)
}

/// The log line of a completed call of `method` with request id `id`.
pub fn call_completed_message(method: &str, id: &str, elapsed_us: u128) -> (res: String)
    ensures
        res@ == call_line(method@, id@, elapsed_us as nat),
{
    let mut out = String::from_str("rpc.call completed method=");
    out.append(method);
    out.append(" id=");
    out.append(id);
    out.append(" elapsed_us=");
    push_decimal(&mut out, elapsed_us);
    out
}

/// The log line of a completed notification.
pub open spec fn notification_line(method: Seq<char>, elapsed_us: nat) -> Seq<char> {
    "rpc.notification completed method="@ + method + " elapsed_us="@ + decimal(elapsed_us)
}

/// The log line of a completed notification of `method`.
pub fn notification_completed_message(method: &str, elapsed_us: u128) -> (res: String)
    ensures
        res@ == notification_line(method@, elapsed_us as nat),
{
    let mut out = String::from_str("rpc.notification completed method=");
    out.append(method);
    out.append(" elapsed_us=");
    push_decimal(&mut out, elapsed_us);
    out
}

/// Texts joined with commas between them.
pub open spec fn comma_joined(parts: Seq<Seq<char>>) -> Seq<char>
    decreases parts.len(),
{
    if parts.len() == 0 {
        Seq::empty()
    } else if parts.len() == 1 {
        parts[0]
    } else {
        comma_joined(parts.drop_last()) + ","@ + parts.last()
    }
}

/// The name under which an entry of a batch is logged: its method, or
/// `<invalid>` when the entry could not be read.
pub open spec fn entry_name(entry: Option<Seq<char>>) -> Seq<char> {
    match entry {
        Some(m) => m,
        None => "<invalid>"@,
    }
}

/// The methods of a batch as logged: `<empty>` for an empty batch, else the
/// entries' names joined with commas.
pub open spec fn batch_methods(entries: Seq<Option<Seq<char>>>) -> Seq<char> {
    if entries.len() == 0 {
        "<empty>"@
    } else {
        comma_joined(entries.map_values(|e: Option<Seq<char>>| entry_name(e)))
    }
}

/// The texts of a list of optional method names.
pub open spec fn entry_views(entries: Seq<Option<String>>) -> Seq<Option<Seq<char>>> {
    entries.map_values(|e: Option<String>|
        match e {
            Some(m) => Some(m@),
            None => None,
        }
    )
}

/// The summary of the methods of a batch: each entry's method, or
/// `<invalid>`, joined with commas; `<empty>` for an empty batch.
pub fn batch_methods_summary(entries: &Vec<Option<String>>) -> (res: String)
    ensures
        res@ == batch_methods(entry_views(entries@)),
{
    let n = entries.len();
    if n == 0 {
        return String::from_str("<empty>");
    }
    let mut out = String::new();
    let mut i: usize = 0;
    let ghost names = entry_views(entries@).map_values(|e: Option<Seq<char>>| entry_name(e));
    while i < n
        invariant
            n == entries@.len(),
            n > 0,
            i <= n,
            names == entry_views(entries@).map_values(|e: Option<Seq<char>>| entry_name(e)),
            names.len() == n,
            out@ == comma_joined(names.take(i as int)),
        decreases n - i,
    {
        let ghost before = out@;
        if i > 0 {
            out.append(",");
        }
        match &entries[i] {
            Some(m) => out.append(m.as_str()),
            None => out.append("<invalid>"),
        }
        proof {
            let next = names.take(i + 1);
            assert(next.drop_last() =~= names.take(i as int));
            assert(next.last() == names[i as int]);
            assert(names[i as int] == entry_name(entry_views(entries@)[i as int]));
            if i == 0 {
                assert(next.len() == 1);
                assert(out@ =~= next[0]);
            } else {
                assert(out@ =~= before + ","@ + next.last());
            }
        }
        i = i + 1;
    }
    assert(names.take(n as int) =~= names);
    out
}

/// The log line of a completed batch.
pub open spec fn batch_line(size: nat, methods: Seq<char>, elapsed_us: nat) -> Seq<char> {
    "rpc.batch completed size="@ + decimal(size) + " methods="@ + methods + " elapsed_us="@ + decimal(elapsed_us)
}

/// The log line of a completed batch of `size` entries.
pub fn batch_completed_message(size: usize, methods: &str, elapsed_us: u128) -> (res: String)
    ensures
        res@ == batch_line(size as nat, methods@, elapsed_us as nat),
{
    let mut out = String::from_str("rpc.batch completed size=");
    push_decimal(&mut out, size as u128);
    out.append(" methods=");
    out.append(methods);
    out.append(" elapsed_us=");
    push_decimal(&mut out, elapsed_us);
    out
}

} // verus!
