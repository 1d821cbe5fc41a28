//! The benchmark client's decisions: its minimal MCP stdio server, which
//! answers one JSON-RPC request per line, and the reading of its peak memory
//! from a `/proc/self/status` text.
//!
//! The reply lines are compact JSON with object keys in sorted order.
use vstd::prelude::*;

use crate::error::{error_message, TranscriptError};
use crate::format::{json_string, push_json_string};
use crate::rpc::{opt_str_view, opt_view};
use crate::text::{
    chars_eq, chars_of, is_whitespace, is_whitespace_char, push_str, str_eq, string_from_chars,
    string_of, trim, trimmed,
};
use crate::url::{find_char, index_of};

verus! {

broadcast use vstd::string::group_string_axioms;

/// The video fetched by a `tools/call` request without a `url` argument.
pub const SAMPLE_URL: &'static str = "https://www.youtube.com/watch?v=dQw4w9WgXcQ";

/// One request line, as the fields the server reads from it.
#[derive(Debug)]
pub struct StdioRequest {
    /// The request's `id` as the JSON text it was sent as, if it has one.
    pub id: Option<String>,
    /// The `method` member, or empty when it is missing or not a string.
    pub method: String,
    /// The `params.arguments.url` member, when it is a string.
    pub url: Option<String>,
}

/// What the server does with a line.
#[derive(Debug)]
pub enum StdioAction {
    /// Nothing: no reply is written.
    Ignore,
    /// Write this line (newline included) to standard output.
    Reply(String),
    /// Fetch the transcript of this URL and answer with [`stdio_call_reply`].
    Fetch(String),
}

/// The JSON text of an optional request id.
pub open spec fn json_id(id: Option<Seq<char>>) -> Seq<char> {
    match id {
        Some(t) => t,
        None => "null"@,
    }
}

/// A JSON-RPC success line carrying the JSON text `result`.
pub open spec fn rpc_line(id: Option<Seq<char>>, result: Seq<char>) -> Seq<char> {
    "{\"id\":"@ + json_id(id) + ",\"jsonrpc\":\"2.0\",\"result\":"@ + result + "}\n"@
}

/// The result of `initialize` for a server of version `version`.
pub open spec fn initialize_result(version: Seq<char>) -> Seq<char> {
    "{\"capabilities\":{\"tools\":{}},\"protocolVersion\":\"2024-11-05\",\"serverInfo\":{\"name\":\"rust-bench\",\"version\":"@
        + json_string(version) + "}}"@
}

/// The result of `tools/list`: one tool taking a `url` string.
pub open spec fn tool_list_result() -> Seq<char> {
    "{\"tools\":[{\"description\":\"Bench tool\",\"inputSchema\":{\"properties\":{\"url\":{\"type\":\"string\"}},\"required\":[\"url\"],\"type\":\"object\"},\"name\":\"get_transcript\"}]}"@
}

/// The `content` member holding one text item.
pub open spec fn text_content(text: Seq<char>) -> Seq<char> {
    "{\"content\":[{\"text\":"@ + json_string(text) + ",\"type\":\"text\"}]"@
}

/// The result of a `tools/call`: the transcript, or the error's message
/// flagged with `isError`.
pub open spec fn call_result(outcome: Result<Seq<char>, TranscriptError>) -> Seq<char> {
    match outcome {
        Ok(text) => text_content(text) + "}"@,
        Err(e) => text_content(error_message(e)) + ",\"isError\":true}"@,
    }
}

/// The URL a `tools/call` fetches.
pub open spec fn call_url(url: Option<Seq<char>>) -> Seq<char> {
    match url {
        Some(u) => u,
        None => SAMPLE_URL@,
    }
}

/// A JSON-RPC success line for `id` carrying `result`.
fn rpc_line_of(id: Option<&str>, result: &str) -> (r: String)
    ensures
        r@ == rpc_line(opt_str_view(id), result@),
{
    let mut s = String::from_str("{\"id\":");
    match id {
        Some(t) => push_str(&mut s, t),
        None => push_str(&mut s, "null"),
    }
    push_str(&mut s, ",\"jsonrpc\":\"2.0\",\"result\":");
    push_str(&mut s, result);
    push_str(&mut s, "}\n");
    s
}

/// The `initialize` result for version `version`.
fn initialize_result_of(version: &str) -> (r: String)
    ensures
        r@ == initialize_result(version@),
{
    let mut s = String::from_str(
        "{\"capabilities\":{\"tools\":{}},\"protocolVersion\":\"2024-11-05\",\"serverInfo\":{\"name\":\"rust-bench\",\"version\":",
    );
    push_json_string(&mut s, version);
    push_str(&mut s, "}}");
    s
}

/// The `tools/list` result.
fn tool_list_result_of() -> (r: String)
    ensures
        r@ == tool_list_result(),
{
    String::from_str(
        "{\"tools\":[{\"description\":\"Bench tool\",\"inputSchema\":{\"properties\":{\"url\":{\"type\":\"string\"}},\"required\":[\"url\"],\"type\":\"object\"},\"name\":\"get_transcript\"}]}",
    )
}

/// Decide what to do with one line read from standard input; `req` is the
/// line decoded as a request, `None` when it is not JSON.
///
/// Blank and undecodable lines are skipped, `initialize` and `tools/list`
/// are answered at once, `tools/call` asks for a fetch, and every other
/// method (notifications among them) gets no reply.
pub fn stdio_step(line: &str, req: Option<StdioRequest>, version: &str) -> (r: StdioAction)
    ensures
        match req {
            None => r is Ignore,
            Some(q) => if trimmed(line@).len() == 0 {
                r is Ignore
            } else if q.method@ == "initialize"@ {
                r matches StdioAction::Reply(s) && s@ == rpc_line(
                    opt_view(q.id),
                    initialize_result(version@),
                )
            } else if q.method@ == "tools/list"@ {
                r matches StdioAction::Reply(s) && s@ == rpc_line(opt_view(q.id), tool_list_result())
            } else if q.method@ == "tools/call"@ {
                r matches StdioAction::Fetch(u) && u@ == call_url(opt_view(q.url))
            } else {
                r is Ignore
            },
        },
{
    let q = match req {
        None => return StdioAction::Ignore,
        Some(q) => q,
    };
    let t = trim(line);
    if t.as_str().unicode_len() == 0 {
        return StdioAction::Ignore;
    }
    let id = match &q.id {
        Some(s) => Some(s.as_str()),
        None => None,
    };
    proof {
        assert(opt_str_view(id) == opt_view(q.id));
    }
    if str_eq(q.method.as_str(), "initialize") {
        let result = initialize_result_of(version);
        StdioAction::Reply(rpc_line_of(id, result.as_str()))
    } else if str_eq(q.method.as_str(), "tools/list") {
        let result = tool_list_result_of();
        StdioAction::Reply(rpc_line_of(id, result.as_str()))
    } else if str_eq(q.method.as_str(), "tools/call") {
        match &q.url {
            Some(u) => StdioAction::Fetch(u.clone()),
            None => StdioAction::Fetch(string_of(SAMPLE_URL)),
        }
    } else {
        StdioAction::Ignore
    }
}

/// The reply line to a `tools/call` with id `id`, once the fetch it asked for
/// has given `outcome`. A failed fetch is still a JSON-RPC success, whose
/// result carries the error's message and `"isError":true`.
pub fn stdio_call_reply(id: Option<&str>, outcome: &Result<String, TranscriptError>) -> (r: String)
    ensures
        r@ == rpc_line(
            opt_str_view(id),
            call_result(
                match outcome {
                    Ok(t) => Ok(t@),
                    Err(e) => Err(*e),
                },
            ),
        ),
{
    let mut result = String::from_str("{\"content\":[{\"text\":");
    match outcome {
        Ok(t) => push_json_string(&mut result, t.as_str()),
        Err(e) => {
            let m = e.message();
            push_json_string(&mut result, m.as_str());
        },
    }
    push_str(&mut result, ",\"type\":\"text\"}]");
    match outcome {
        Ok(_) => push_str(&mut result, "}"),
        Err(_) => push_str(&mut result, ",\"isError\":true}"),
    }
    rpc_line_of(id, result.as_str())
}

/// The length of the first word of `t`: the characters before its first
/// whitespace.
pub open spec fn word_len(t: Seq<char>) -> int
    decreases t.len(),
{
    if t.len() == 0 || is_whitespace(t[0]) {
        0
    } else {
        1 + word_len(t.drop_first())
    }
}

/// The first word of a trimmed text (`split_whitespace().next()`, empty when
/// there is none).
pub open spec fn first_word(t: Seq<char>) -> Seq<char> {
    t.take(word_len(t))
}

/// Is `c` one of the ASCII digits?
pub open spec fn is_digit(c: char) -> bool {
    '0' <= c && c <= '9'
}

/// Is every character of `d` an ASCII digit?
pub open spec fn all_digits(d: Seq<char>) -> bool {
    forall|i: int| 0 <= i < d.len() ==> is_digit(#[trigger] d[i])
}

/// The number written by the decimal digits `d`.
pub open spec fn digits_value(d: Seq<char>) -> int
    decreases d.len(),
{
    if d.len() == 0 {
        0
    } else {
        digits_value(d.drop_last()) * 10 + (d.last() as int - '0' as int)
    }
}

/// `w` read as a `u64` the way `str::parse::<u64>` reads it: an optional
/// `+`, then one or more ASCII digits whose value fits in 64 bits.
pub open spec fn decimal_u64(w: Seq<char>) -> Option<u64> {
    let d = if w.len() > 0 && w[0] == '+' {
        w.drop_first()
    } else {
        w
    };
    if d.len() > 0 && all_digits(d) && digits_value(d) <= u64::MAX {
        Some(digits_value(d) as u64)
    } else {
        None
    }
}

/// The peak resident set size, in KiB, that a `/proc/self/status` text
/// reports: the first word after `VmHWM:` on the first line that starts with
/// it, read as a number; `None` when no line starts so or the word is not one.
pub open spec fn vm_hwm_of(s: Seq<char>) -> Option<u64>
    decreases s.len(),
{
    let n = index_of(s, '\n');
    let line = s.take(n);
    let key = "VmHWM:"@;
    if key.len() <= line.len() && line.take(key.len() as int) == key {
        decimal_u64(first_word(trimmed(line.skip(key.len() as int))))
    } else if 0 <= n < s.len() {
        vm_hwm_of(s.skip(n + 1))
    } else {
        None
    }
}

/// A longer run of digits is worth at least as much as its prefix.
proof fn lemma_digits_value_grows(d: Seq<char>, k: int)
    requires
        0 <= k <= d.len(),
        all_digits(d),
    ensures
        digits_value(d.take(k)) <= digits_value(d),
    decreases d.len() - k,
{
    if k < d.len() {
        lemma_digits_value_grows(d, k + 1);
        assert(d.take(k + 1).drop_last() =~= d.take(k));
        assert(is_digit(d[k]));
        lemma_digits_value_nonneg(d.take(k));
    } else {
        assert(d.take(k) =~= d);
    }
}

/// Digits are worth a non-negative number.
proof fn lemma_digits_value_nonneg(d: Seq<char>)
    requires
        all_digits(d),
    ensures
        digits_value(d) >= 0,
    decreases d.len(),
{
    if d.len() > 0 {
        assert(all_digits(d.drop_last())) by {
            assert forall|i: int| 0 <= i < d.drop_last().len() implies is_digit(
                #[trigger] d.drop_last()[i],
            ) by {
                assert(d.drop_last()[i] == d[i]);
            }
        }
        lemma_digits_value_nonneg(d.drop_last());
        assert(is_digit(d[d.len() - 1]));
    }
}

/// `cs[..to]` read as a `u64` (`str::parse::<u64>`).
fn parse_decimal(cs: &Vec<char>, to: usize) -> (r: Option<u64>)
    requires
        to <= cs@.len(),
    ensures
        r == decimal_u64(cs@.take(to as int)),
{
    let ghost w = cs@.take(to as int);
    let start: usize = if to > 0 && cs[0] == '+' {
        1
    } else {
        0
    };
    let ghost d = cs@.subrange(start as int, to as int);
    proof {
        if w.len() > 0 && w[0] == '+' {
            assert(d =~= w.drop_first());
        } else {
            assert(d =~= w);
        }
    }
    if start == to {
        return None;
    }
    let mut acc: u64 = 0;
    let mut k: usize = start;
    proof {
        assert(cs@.subrange(start as int, start as int) =~= Seq::<char>::empty());
    }
    while k < to
        invariant
            start < to <= cs@.len(),
            start <= k <= to,
            d == cs@.subrange(start as int, to as int),
            w == cs@.take(to as int),
            d == (if w.len() > 0 && w[0] == '+' {
                w.drop_first()
            } else {
                w
            }),
            all_digits(cs@.subrange(start as int, k as int)),
            acc as int == digits_value(cs@.subrange(start as int, k as int)),
        decreases to - k,
    {
        let c = cs[k];
        if !(c >= '0' && c <= '9') {
            proof {
                assert(d[k - start] == c);
            }
            return None;
        }
        let dig: u64 = (c as u32 - 48) as u64;
        let ghost next = cs@.subrange(start as int, k + 1);
        proof {
            assert(next.drop_last() =~= cs@.subrange(start as int, k as int));
            assert(next.last() == c);
            assert(all_digits(next)) by {
                assert forall|i: int| 0 <= i < next.len() implies is_digit(#[trigger] next[i]) by {
                    if i < next.len() - 1 {
                        assert(next[i] == cs@.subrange(start as int, k as int)[i]);
                    }
                }
            }
            assert(digits_value(next) == acc * 10 + dig);
        }
        if acc > (u64::MAX - dig) / 10 {
            proof {
                assert(acc * 10 + dig > u64::MAX) by (nonlinear_arith)
                    requires
                        acc > (u64::MAX - dig) / 10,
                        dig <= 9,
                ;
                if all_digits(d) {
                    assert(d.take(k + 1 - start) =~= next);
                    lemma_digits_value_grows(d, k + 1 - start);
                }
            }
            return None;
        }
        proof {
            assert(acc * 10 + dig <= u64::MAX) by (nonlinear_arith)
                requires
                    acc <= (u64::MAX - dig) / 10,
                    dig <= 9,
            ;
        }
        acc = acc * 10 + dig;
        k = k + 1;
    }
    Some(acc)
}

/// The first word of `t` read as a `u64`.
fn parse_first_word(t: &str) -> (r: Option<u64>)
    ensures
        r == decimal_u64(first_word(t@)),
{
    let cs = chars_of(t);
    let mut k: usize = 0;
    proof {
        assert(cs@.skip(0) =~= cs@);
    }
    while k < cs.len() && !is_whitespace_char(cs[k])
        invariant
            cs@ == t@,
            k <= cs@.len(),
            word_len(cs@) == k + word_len(cs@.skip(k as int)),
        decreases cs@.len() - k,
    {
        proof {
            assert(cs@.skip(k as int).drop_first() =~= cs@.skip(k + 1));
            assert(cs@.skip(k as int)[0] == cs@[k as int]);
        }
        k = k + 1;
    }
    proof {
        if k < cs@.len() {
            assert(cs@.skip(k as int)[0] == cs@[k as int]);
        }
    }
    parse_decimal(&cs, k)
}

/// The peak resident set size, in KiB, reported by the `/proc/self/status`
/// text `status`.
pub fn vm_hwm_kib(status: &str) -> (r: Option<u64>)
    ensures
        r == vm_hwm_of(status@),
{
    let cs = chars_of(status);
    let key = chars_of("VmHWM:");
    let mut i: usize = 0;
    proof {
        assert(cs@.skip(0) =~= cs@);
    }
    loop
        invariant
            cs@ == status@,
            key@ == "VmHWM:"@,
            i <= cs@.len(),
            vm_hwm_of(status@) == vm_hwm_of(cs@.skip(i as int)),
        decreases cs@.len() - i,
    {
        let j = find_char(&cs, i, '\n');
        let ghost s = cs@.skip(i as int);
        let ghost line = s.take(j - i);
        proof {
            assert(line =~= cs@.subrange(i as int, j as int));
        }
        let starts = j - i >= key.len() && chars_eq(&cs, i, i + key.len(), &key);
        proof {
            if key@.len() <= line.len() {
                assert(line.take(key@.len() as int) =~= cs@.subrange(i as int, i + key@.len()));
            }
        }
        if starts {
            let rest = string_from_chars(&cs, i + key.len(), j);
            proof {
                assert(rest@ =~= line.skip(key@.len() as int));
            }
            let t = trim(rest.as_str());
            return parse_first_word(t.as_str());
        }
        if j == cs.len() {
            return None;
        }
        proof {
            assert(s.skip(j - i + 1) =~= cs@.skip(j + 1));
        }
        i = j + 1;
    }
}

} // verus!
