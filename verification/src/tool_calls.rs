//! Recovery of tool calls that a model wrote as JSON text instead of structured
//! `tool_calls` (some locally hosted models do so).
use vstd::prelude::*;

use crate::json::{member, member_index, parse_json, parsed_json, JsonValue};
use crate::text::{
    chars_of, decimal, decimal_string, is_trimmed, is_white_space, law_decimal_injective, law_trim,
    trim, trim_bounds, trim_spec,
};

verus! {

/// A tool call read from text: its id, the function's name and its JSON arguments.
#[derive(Debug)]
pub struct TextToolCall {
    pub call_id: String,
    pub fn_name: String,
    pub fn_arguments: JsonValue,
}

/// Source of call ids: each call read from text takes the next number, and the
/// number wraps around after `u64::MAX`.
#[derive(Debug)]
pub struct CallIdCounter {
    next: u64,
}

/// The number that follows `n` on a call id counter.
pub open spec fn successor(n: u64) -> u64 {
    if n == u64::MAX {
        0
    } else {
        (n + 1) as u64
    }
}

/// The number `k` places after `n` on a call id counter.
pub open spec fn advance(n: u64, k: nat) -> u64
    decreases k,
{
    if k == 0 {
        n
    } else {
        successor(advance(n, (k - 1) as nat))
    }
}

/// The id of the call that takes number `n`: `call_` and `n` in decimal.
pub open spec fn call_id_text(n: u64) -> Seq<char> {
    "call_"@ + decimal(n as nat)
}

impl View for CallIdCounter {
    type V = u64;

    closed spec fn view(&self) -> u64 {
        self.next
    }
}

impl CallIdCounter {
    /// A counter whose first id is `call_0`.
    pub fn new() -> (r: Self)
        ensures
            r@ == 0,
    {
        CallIdCounter { next: 0 }
    }

    /// A counter whose first id is `call_{next}`.
    pub fn starting_at(next: u64) -> (r: Self)
        ensures
            r@ == next,
    {
        CallIdCounter { next }
    }

    /// The number that the next id will carry.
    pub fn peek(&self) -> (r: u64)
        ensures
            r == self@,
    {
        self.next
    }

    /// Takes the next id.
    pub fn next_call_id(&mut self) -> (id: String)
        ensures
            id@ == call_id_text(old(self)@),
            final(self)@ == successor(old(self)@),
    {
        let mut id = String::from_str("call_");
        let digits = decimal_string(self.next);
        id.append(digits.as_str());
        self.next = if self.next == u64::MAX {
            0
        } else {
            self.next + 1
        };
        id
    }
}

/// What an object says of a tool call: the function's name and its arguments, either as
/// `{"name": .., "arguments": ..}` or as `{"function": {"name": .., "arguments": ..}}`.
/// In the second form the arguments may be left out (`None`), which stands for `{}`.
pub open spec fn call_target(entries: Seq<(String, JsonValue)>) -> Option<(Seq<char>, Option<JsonValue>)> {
    match (member(entries, "name"@), member(entries, "arguments"@)) {
        (Some(name), Some(arguments)) => match name {
            JsonValue::Str(s) => Some((s@, Some(arguments))),
            _ => None,
        },
        _ => match member(entries, "function"@) {
            Some(JsonValue::Object(f)) => match member(f@, "name"@) {
                Some(JsonValue::Str(s)) => Some((s@, member(f@, "arguments"@))),
                _ => None,
            },
            _ => None,
        },
    }
}

/// `call` is the call built from `target` under the id number `id`.
pub open spec fn built_from(call: TextToolCall, target: (Seq<char>, Option<JsonValue>), id: u64) -> bool {
    &&& call.call_id@ == call_id_text(id)
    &&& call.fn_name@ == target.0
    &&& match target.1 {
        Some(arguments) => call.fn_arguments == arguments,
        None => call.fn_arguments matches JsonValue::Object(e) && e@.len() == 0,
    }
}

/// The targets of the calls that a parsed document holds: one for an object that
/// describes a call, one for each array element that is such an object, none otherwise.
pub open spec fn json_call_targets(value: JsonValue) -> Seq<(Seq<char>, Option<JsonValue>)> {
    match value {
        JsonValue::Object(entries) => option_seq(call_target(entries@)),
        JsonValue::Array(items) => item_targets(items@),
        _ => Seq::empty(),
    }
}

/// The targets of the array elements that are objects describing a call, in order.
pub open spec fn item_targets(items: Seq<JsonValue>) -> Seq<(Seq<char>, Option<JsonValue>)>
    decreases items.len(),
{
    if items.len() == 0 {
        Seq::empty()
    } else {
        item_targets(items.drop_last()) + match items.last() {
            JsonValue::Object(e) => option_seq(call_target(e@)),
            _ => Seq::empty(),
        }
    }
}

/// The sequence holding the value of `o`, if any.
pub open spec fn option_seq<A>(o: Option<A>) -> Seq<A> {
    match o {
        Some(a) => seq![a],
        None => Seq::empty(),
    }
}

/// `calls` are the calls built from `targets` in order, numbered from `start` on.
pub open spec fn calls_built(
    calls: Seq<TextToolCall>,
    targets: Seq<(Seq<char>, Option<JsonValue>)>,
    start: u64,
) -> bool {
    &&& calls.len() == targets.len()
    &&& forall|k: int|
        0 <= k < calls.len() ==> built_from(#[trigger] calls[k], targets[k], advance(start, k as nat))
}

/// Builds the call that an object describes, if it describes one (see `call_target`).
/// A call takes the counter's next id; an object that describes none leaves it alone.
pub fn parse_tool_call_object(entries: Vec<(String, JsonValue)>, ids: &mut CallIdCounter) -> (r:
    Option<TextToolCall>)
    ensures
        match call_target(entries@) {
            Some(target) => r matches Some(call) && built_from(call, target, old(ids)@)
                && final(ids)@ == successor(old(ids)@),
            None => r is None && final(ids)@ == old(ids)@,
        },
{
    let mut entries = entries;
    let name_at = member_index(&entries, "name");
    let arguments_at = member_index(&entries, "arguments");
    if let (Some(n), Some(a)) = (name_at, arguments_at) {
        let fn_name = match &entries[n].1 {
            JsonValue::Str(s) => s.clone(),
            _ => {
                return None;
            },
        };
        let fn_arguments = entries.swap_remove(a).1;
        let call_id = ids.next_call_id();
        return Some(TextToolCall { call_id, fn_name, fn_arguments });
    }
    let function_at = match member_index(&entries, "function") {
        Some(f) => f,
        None => {
            return None;
        },
    };
    let mut function = match entries.swap_remove(function_at).1 {
        JsonValue::Object(f) => f,
        _ => {
            return None;
        },
    };
    let fn_name = match member_index(&function, "name") {
        Some(n) => match &function[n].1 {
            JsonValue::Str(s) => s.clone(),
            _ => {
                return None;
            },
        },
        None => {
            return None;
        },
    };
    let fn_arguments = match member_index(&function, "arguments") {
        Some(a) => function.swap_remove(a).1,
        None => JsonValue::Object(Vec::new()),
    };
    let call_id = ids.next_call_id();
    Some(TextToolCall { call_id, fn_name, fn_arguments })
}

/// The calls that a parsed document describes (see `json_call_targets`), with ids
/// taken from the counter in order.
pub fn tool_calls_from_json(value: JsonValue, ids: &mut CallIdCounter) -> (r: Vec<TextToolCall>)
    ensures
        calls_built(r@, json_call_targets(value), old(ids)@),
        final(ids)@ == advance(old(ids)@, r@.len()),
{
    match value {
        JsonValue::Object(entries) => {
            let ghost start = ids@;
            let mut out: Vec<TextToolCall> = Vec::new();
            match parse_tool_call_object(entries, ids) {
                Some(call) => {
                    out.push(call);
                },
                None => {},
            }
            proof {
                assert(advance(start, 0) == start);
                assert(advance(start, 1) == successor(advance(start, 0)));
            }
            out
        },
        JsonValue::Array(items) => {
            let ghost all = items@;
            let ghost start = ids@;
            let mut rest = items;
            let mut out: Vec<TextToolCall> = Vec::new();
            let n = rest.len();
            let mut i: usize = 0;
            assert(all.take(0) == Seq::<JsonValue>::empty());
            while i < n
                invariant
                    i <= n,
                    n == all.len(),
                    rest@ == all.skip(i as int),
                    calls_built(out@, item_targets(all.take(i as int)), start),
                    ids@ == advance(start, out@.len()),
                decreases n - i,
            {
                let item = rest.remove(0);
                assert(item == all[i as int]);
                assert(all.take(i + 1).drop_last() == all.take(i as int));
                assert(all.skip(i as int).remove(0) == all.skip(i + 1));
                let ghost before = out@;
                let ghost id_before = ids@;
                match item {
                    JsonValue::Object(entries) => {
                        match parse_tool_call_object(entries, ids) {
                            Some(call) => {
                                out.push(call);
                            },
                            None => {},
                        }
                    },
                    _ => {},
                }
                proof {
                    let targets = item_targets(all.take(i + 1));
                    assert(targets == item_targets(all.take(i as int)) + match all[i as int] {
                        JsonValue::Object(e) => option_seq(call_target(e@)),
                        _ => Seq::empty(),
                    });
                    assert forall|k: int| 0 <= k < out@.len() implies built_from(
                        #[trigger] out@[k],
                        targets[k],
                        advance(start, k as nat),
                    ) by {
                        if k < before.len() {
                            assert(out@[k] == before[k]);
                        }
                    }
                }
                i = i + 1;
            }
            assert(all.take(n as int) == all);
            out
        },
        _ => Vec::new(),
    }
}

/// Markers that open and close a fenced code block.
pub open spec fn fence() -> Seq<char> {
    seq!['`', '`', '`']
}

/// The opening of a fenced block tagged as JSON.
pub open spec fn json_fence() -> Seq<char> {
    seq!['`', '`', '`', 'j', 's', 'o', 'n']
}

/// `s` without a leading "```json" (or else "```") and without a trailing "```".
pub open spec fn unfenced(s: Seq<char>) -> Seq<char> {
    let a = if s.len() >= 7 && s.take(7) == json_fence() {
        s.skip(7)
    } else if s.len() >= 3 && s.take(3) == fence() {
        s.skip(3)
    } else {
        s
    };
    if a.len() >= 3 && a.skip(a.len() - 3) == fence() {
        a.take(a.len() - 3)
    } else {
        a
    }
}

/// Whether `pat` stands in `chars` at `at`, before `hi`.
fn occurs_at(chars: &Vec<char>, at: usize, hi: usize, pat: &Vec<char>) -> (r: bool)
    requires
        at <= hi <= chars.len(),
    ensures
        r == (pat@.len() <= hi - at && chars@.subrange(at as int, at + pat@.len()) == pat@),
{
    let m = pat.len();
    if m > hi - at {
        return false;
    }
    let mut k: usize = 0;
    while k < m
        invariant
            k <= m,
            m == pat@.len(),
            at + m <= hi <= chars.len(),
            forall|j: int| 0 <= j < k ==> chars@[at + j] == pat@[j],
        decreases m - k,
    {
        if chars[at + k] != pat[k] {
            assert(chars@.subrange(at as int, at + m)[k as int] == chars@[at + k]);
            return false;
        }
        k = k + 1;
    }
    assert(chars@.subrange(at as int, at + m) == pat@);
    true
}

/// Removes a Markdown code fence around `text` ("```json" or "```" before, "```" after),
/// then surrounding whitespace.
pub fn strip_markdown_fence(text: &str) -> (r: &str)
    ensures
        r@ == trim_spec(unfenced(text@)),
{
    let chars = chars_of(text);
    let n = chars.len();
    let json_open = vec!['`', '`', '`', 'j', 's', 'o', 'n'];
    let plain = vec!['`', '`', '`'];
    let lo: usize = if occurs_at(&chars, 0, n, &json_open) {
        7
    } else if occurs_at(&chars, 0, n, &plain) {
        3
    } else {
        0
    };
    proof {
        assert(chars@.subrange(0, 7) == chars@.take(7));
        assert(chars@.subrange(0, 3) == chars@.take(3));
    }
    let hi: usize = if n - lo >= 3 && occurs_at(&chars, n - 3, n, &plain) {
        n - 3
    } else {
        n
    };
    proof {
        let a = chars@.subrange(lo as int, n as int);
        assert(a == if chars@.len() >= 7 && chars@.take(7) == json_fence() {
            chars@.skip(7)
        } else if chars@.len() >= 3 && chars@.take(3) == fence() {
            chars@.skip(3)
        } else {
            chars@
        });
        if a.len() >= 3 {
            assert(a.skip(a.len() - 3) == chars@.subrange(n - 3, n as int));
        }
        assert(chars@.subrange(lo as int, hi as int) == unfenced(chars@));
    }
    let (a, b) = trim_bounds(&chars, lo, hi);
    text.substring_char(a, b)
}

/// The calls that `text` describes when it holds one JSON object or array of objects
/// describing tool calls, possibly in a Markdown code fence and surrounded by whitespace.
pub open spec fn text_call_targets(text: Seq<char>) -> Seq<(Seq<char>, Option<JsonValue>)> {
    match parsed_json(trim_spec(unfenced(trim_spec(text)))) {
        Some(value) => json_call_targets(value),
        None => Seq::empty(),
    }
}

/// Reads the tool calls that `text` holds as JSON: the text, trimmed and stripped of a
/// Markdown fence, must parse as a JSON object or array; the calls are those that
/// `json_call_targets` finds in it, with ids taken from the counter in order.
/// Text that does not parse gives no calls.
pub fn extract_text_tool_calls(text: &str, ids: &mut CallIdCounter) -> (r: Vec<TextToolCall>)
    ensures
        calls_built(r@, text_call_targets(text@), old(ids)@),
        final(ids)@ == advance(old(ids)@, r@.len()),
{
    let trimmed = strip_markdown_fence(trim(text));
    match parse_json(trimmed) {
        Some(value) => tool_calls_from_json(value, ids),
        None => Vec::new(),
    }
}

/// A counter `k` places on from `n` stands at `n + k` modulo 2^64.
proof fn lemma_advance(n: u64, k: nat)
    ensures
        advance(n, k) as int == (n + k) % 0x1_0000_0000_0000_0000,
    decreases k,
{
    if k > 0 {
        lemma_advance(n, (k - 1) as nat);
    }
}

/// Ids taken from one counter are pairwise different as long as fewer than 2^64 of them
/// are taken: the ids `i` and `j` places on from the same start differ.
pub proof fn law_call_ids_distinct(start: u64, i: nat, j: nat)
    requires
        i < j < 0x1_0000_0000_0000_0000,
    ensures
        call_id_text(advance(start, i)) != call_id_text(advance(start, j)),
{
    lemma_advance(start, i);
    lemma_advance(start, j);
    let x = advance(start, i);
    let y = advance(start, j);
    assert(x != y);
    if call_id_text(x) == call_id_text(y) {
        reveal_strlit("call_");
        assert(call_id_text(x).skip(5) == decimal(x as nat));
        assert(call_id_text(y).skip(5) == decimal(y as nat));
        law_decimal_injective(x as nat, y as nat);
    }
}

/// The calls read in one go carry pairwise different ids.
pub proof fn law_extracted_ids_distinct(
    calls: Seq<TextToolCall>,
    targets: Seq<(Seq<char>, Option<JsonValue>)>,
    start: u64,
)
    requires
        calls_built(calls, targets, start),
        calls.len() <= 0x1_0000_0000_0000_0000,
    ensures
        forall|i: int, j: int|
            0 <= i < j < calls.len() ==> (#[trigger] calls[i]).call_id@ != (#[trigger] calls[j]).call_id@,
{
    assert forall|i: int, j: int| 0 <= i < j < calls.len() implies (#[trigger] calls[i]).call_id@
        != (#[trigger] calls[j]).call_id@ by {
        law_call_ids_distinct(start, i as nat, j as nat);
    }
}

/// The text that `strip_markdown_fence` leaves has no whitespace at either end.
pub proof fn law_unfenced_text_is_trimmed(s: Seq<char>)
    ensures
        is_trimmed(trim_spec(unfenced(s))),
{
    law_trim(unfenced(s));
}

/// Wrapping a document in a Markdown fence does not change the calls read from it: the
/// calls of "```json" + `s` + "```" (and, when `s` does not start with "json", of "```" +
/// `s` + "```") are those of `s`, for any `s` whose trimmed form neither starts nor ends
/// with "```".
pub proof fn law_fence_is_transparent(s: Seq<char>)
    requires
        !(trim_spec(s).len() >= 3 && trim_spec(s).take(3) == fence()),
        !(trim_spec(s).len() >= 3 && trim_spec(s).skip(trim_spec(s).len() - 3) == fence()),
    ensures
        text_call_targets(json_fence() + s + fence()) == text_call_targets(s),
        !(s.len() >= 4 && s.take(4) == seq!['j', 's', 'o', 'n']) ==> text_call_targets(
            fence() + s + fence(),
        ) == text_call_targets(s),
{
    let r = trim_spec(s);
    law_trim(s);
    assert(r.len() >= 7 && r.take(7) == json_fence() ==> r.take(3) == fence()) by {
        if r.len() >= 7 && r.take(7) == json_fence() {
            assert(r.take(3) == json_fence().take(3));
        }
    }
    assert(unfenced(r) == r);
    lemma_fenced(json_fence(), s);
    if !(s.len() >= 4 && s.take(4) == seq!['j', 's', 'o', 'n']) {
        let t = fence() + s + fence();
        assert(!(t.len() >= 7 && t.take(7) == json_fence())) by {
            if t.len() >= 7 && t.take(7) == json_fence() {
                assert(t[3] == 'j' && t[4] == 's' && t[5] == 'o' && t[6] == 'n') by {
                    assert(t[3] == t.take(7)[3] && t[4] == t.take(7)[4]);
                    assert(t[5] == t.take(7)[5] && t[6] == t.take(7)[6]);
                }
                if s.len() >= 4 {
                    assert(s.take(4) == seq!['j', 's', 'o', 'n']) by {
                        assert(s[0] == t[3] && s[1] == t[4] && s[2] == t[5] && s[3] == t[6]);
                    }
                } else {
                    let k = s.len() as int;
                    assert(t[3 + k] == '`');
                }
            }
        }
        lemma_fenced(fence(), s);
    }
}

/// A text that opens with a fence (`open`) and closes with "```" is already trimmed,
/// and removing its fence leaves `s`, provided `unfenced` takes `open` off it.
proof fn lemma_fenced(open: Seq<char>, s: Seq<char>)
    requires
        open == json_fence() || open == fence(),
        open == fence() ==> !((fence() + s + fence()).len() >= 7 && (fence() + s + fence()).take(7)
            == json_fence()),
    ensures
        trim_spec(open + s + fence()) == open + s + fence(),
        unfenced(open + s + fence()) == s,
{
    let t = open + s + fence();
    assert(t[0] == '`');
    assert(t.last() == '`');
    law_trim(t);
    assert(t.take(open.len() as int) == open);
    let a = t.skip(open.len() as int);
    assert(a == s + fence());
    assert(a.skip(a.len() - 3) == fence());
    assert(a.take(a.len() - 3) == s);
    if open == json_fence() {
        assert(t.take(7) == json_fence());
    } else {
        assert(t.take(3) == fence());
    }
    assert(trim_spec(t) == t) by {
        let w = trim_spec(t);
        assert(!is_white_space(t[0]));
        assert(!is_white_space(t.last()));
        reveal_with_fuel(crate::text::leading_white, 2);
        reveal_with_fuel(crate::text::trailing_white, 2);
        assert(t.skip(0) == t);
        assert(t.take(t.len() as int) == t);
    }
}

/// What an object says of a call, in terms of its members: with both `name` and
/// `arguments`, the call is named by `name` when that is a string (and there is no call
/// otherwise) and takes `arguments` as they are; without one of them, an object member
/// `function` whose `name` is a string describes the call, with its `arguments` if any;
/// anything else describes no call.
pub proof fn law_call_target(entries: Seq<(String, JsonValue)>)
    ensures
        member(entries, "name"@) matches Some(n) ==> member(entries, "arguments"@) matches Some(
            a,
        ) ==> call_target(entries) == match n {
            JsonValue::Str(s) => Some((s@, Some(a))),
            _ => None,
        },
        (member(entries, "name"@) is None || member(entries, "arguments"@) is None) ==> (
        call_target(entries) is Some <==> (member(entries, "function"@) matches Some(
            JsonValue::Object(f),
        ) && member(f@, "name"@) matches Some(JsonValue::Str(_)))),
        member(entries, "function"@) matches Some(JsonValue::Object(f)) ==> (member(f@, "name"@) matches Some(
            JsonValue::Str(s),
        ) ==> ((member(entries, "name"@) is None || member(entries, "arguments"@) is None)
            ==> call_target(entries) == Some((s@, member(f@, "arguments"@))))),
{
}

} // verus!
