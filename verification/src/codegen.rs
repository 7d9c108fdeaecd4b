//! Text handling around the language-model calls of the agent.

use vstd::prelude::*;
use vstd::string::StringSliceAdditionalSpecFns;
use vstd::utf8::*;

use crate::text::{
    chars_of, decimal, has_prefix_at, joined, push_decimal, skip_whitespace, skip_whitespace_back,
    str_eq, string_of, trim, trim_end,
};

verus! {

/// A hypothesis proposed for a detector.
#[derive(Debug, Clone)]
pub struct Hypothesis {
    pub name: String,
    pub description: String,
    pub hypothesis: String,
    pub family: String,
    pub test_type: String,
    pub bins: u32,
    pub notes: String,
}

/// The command-line client of the language model.
pub struct Client;

/// The last character boundary of `b` at or before `m`.
pub open spec fn last_boundary_at_most(b: Seq<u8>, m: int) -> int
    decreases m,
{
    if m <= 0 {
        0
    } else if is_char_boundary(b, m) {
        m
    } else {
        last_boundary_at_most(b, m - 1)
    }
}

/// The characters of the longest prefix of `s` that is at most `max_bytes`
/// bytes long and ends on a character boundary.
pub open spec fn truncated_text(s: &str, max_bytes: usize) -> Seq<char> {
    decode_utf8(
        s.spec_bytes().subrange(
            0,
            last_boundary_at_most(
                s.spec_bytes(),
                if max_bytes < s.len() {
                    max_bytes as int
                } else {
                    s.len() as int
                },
            ),
        ),
    )
}

/// The longest prefix of `s` that is at most `max_bytes` bytes long and ends
/// on a character boundary.
pub fn truncate_to_char_boundary(s: &str, max_bytes: usize) -> (r: &str)
    ensures
        r.spec_bytes() == s.spec_bytes().subrange(
            0,
            last_boundary_at_most(
                s.spec_bytes(),
                if max_bytes < s.len() {
                    max_bytes as int
                } else {
                    s.len() as int
                },
            ),
        ),
        r.spec_bytes().len() <= max_bytes,
        r@ == truncated_text(s, max_bytes),
{
    proof {
        encode_utf8_valid_utf8(s@);
        is_char_boundary_start_end_of_seq(s.spec_bytes());
    }
    let len = s.len();
    let mut end = if max_bytes < len { max_bytes } else { len };
    let ghost m = end as int;
    while !s.is_char_boundary(end)
        invariant
            end <= m,
            m == if max_bytes < s.len() {
                max_bytes as int
            } else {
                s.len() as int
            },
            valid_utf8(s.spec_bytes()),
            is_char_boundary(s.spec_bytes(), 0),
            last_boundary_at_most(s.spec_bytes(), m) == last_boundary_at_most(
                s.spec_bytes(),
                end as int,
            ),
        decreases end,
    {
        end = end - 1;
    }
    assert(last_boundary_at_most(s.spec_bytes(), end as int) == end as int);
    let r = s.split_at(end).0;
    assert(r.spec_bytes() =~= s.spec_bytes().subrange(0, end as int));
    proof {
        encode_utf8_decode_utf8(r@);
    }
    r
}

/// The index of the first `c` in `s`, if any.
pub open spec fn first_index_of(s: Seq<char>, c: char) -> Option<int> {
    if exists|i: int| 0 <= i < s.len() && s[i] == c {
        Some(choose|i: int| 0 <= i < s.len() && s[i] == c && forall|j: int| 0 <= j < i ==> s[j] != c)
    } else {
        None
    }
}

/// The index of the last `c` in `s`, if any.
pub open spec fn last_index_of(s: Seq<char>, c: char) -> Option<int> {
    if exists|i: int| 0 <= i < s.len() && s[i] == c {
        Some(
            choose|i: int|
                0 <= i < s.len() && s[i] == c && forall|j: int| i < j < s.len() ==> s[j] != c,
        )
    } else {
        None
    }
}

/// The text from the first `[` through the last `]`, when the last `]` comes
/// after the first `[`.
pub open spec fn json_array_span(s: Seq<char>) -> Option<Seq<char>> {
    match (first_index_of(s, '['), last_index_of(s, ']')) {
        (Some(a), Some(b)) => if b > a {
            Some(s.subrange(a, b + 1))
        } else {
            None
        },
        _ => None,
    }
}

/// Cuts a JSON array out of a model's reply: the text from the first `[`
/// through the last `]`.
pub fn extract_json_array(s: &str) -> (r: Option<String>)
    ensures
        match r {
            Some(t) => json_array_span(s@) == Some(t@),
            None => json_array_span(s@) is None,
        },
{
    let v = chars_of(s);
    let n = v.len();
    let mut a: usize = 0;
    while a < n && v[a] != '['
        invariant
            v@ == s@,
            n == v.len(),
            a <= n,
            forall|j: int| 0 <= j < a ==> v@[j] != '[',
        decreases n - a,
    {
        a = a + 1;
    }
    if a == n {
        return None;
    }
    assert(first_index_of(s@, '[') == Some(a as int)) by {
        let i = choose|i: int|
            0 <= i < s@.len() && s@[i] == '[' && forall|j: int| 0 <= j < i ==> s@[j] != '[';
        assert(s@[a as int] == '[');
        if i < a {
        } else if i > a {
            assert(s@[a as int] != '[');
        }
    }
    let mut b: usize = n;
    while b > 0 && v[b - 1] != ']'
        invariant
            v@ == s@,
            n == v.len(),
            b <= n,
            forall|j: int| b <= j < n ==> v@[j] != ']',
        decreases b,
    {
        b = b - 1;
    }
    if b == 0 {
        assert(last_index_of(s@, ']') is None);
        return None;
    }
    let e = b - 1;
    assert(last_index_of(s@, ']') == Some(e as int)) by {
        let i = choose|i: int|
            0 <= i < s@.len() && s@[i] == ']' && forall|j: int| i < j < s@.len() ==> s@[j] != ']';
        assert(s@[e as int] == ']');
        if i < e {
            assert(s@[e as int] != ']');
        }
    }
    if e > a {
        Some(string_of(&v, a, e + 1))
    } else {
        None
    }
}

/// `s` without its leading newlines.
pub open spec fn trim_start_newlines(s: Seq<char>) -> Seq<char>
    decreases s.len(),
{
    if s.len() > 0 && s[0] == '\n' {
        trim_start_newlines(s.drop_first())
    } else {
        s
    }
}

/// The text between an opening fence `open` and a closing "```", when `t`
/// starts with the one and (after it) ends with the other.
pub open spec fn fence_body(t: Seq<char>, open: Seq<char>) -> Option<Seq<char>> {
    if t.len() >= open.len() + 3 && t.subrange(0, open.len() as int) == open && t.subrange(
        t.len() - 3,
        t.len() as int,
    ) == "```"@ {
        Some(t.subrange(open.len() as int, t.len() - 3))
    } else {
        None
    }
}

/// The source code in a model's reply: the trimmed reply, or, when it is
/// fenced as "```rust" or "```" … "```", the text inside the fence without
/// leading newlines and trailing whitespace.
pub open spec fn code_in_reply(s: Seq<char>) -> Seq<char> {
    let t = trim(s);
    match fence_body(t, "```rust"@) {
        Some(body) => trim_end(trim_start_newlines(body)),
        None => match fence_body(t, "```"@) {
            Some(body) => trim_end(trim_start_newlines(body)),
            None => t,
        },
    }
}

fn unfence(v: &Vec<char>, a: usize, b: usize, open: &str) -> (r: Option<String>)
    requires
        a <= b <= v.len(),
    ensures
        match fence_body(v@.subrange(a as int, b as int), open@) {
            Some(body) => r is Some && r->0@ == trim_end(trim_start_newlines(body)),
            None => r is None,
        },
{
    let ghost t = v@.subrange(a as int, b as int);
    let ol = chars_of(open).len();
    proof {
        reveal_strlit("```");
    }
    if b - a < ol || b - a - ol < 3 {
        return None;
    }
    if !has_prefix_at(v, a, b, open) {
        assert(t.subrange(0, ol as int) =~= v@.subrange(a as int, a + ol));
        return None;
    }
    if !has_prefix_at(v, b - 3, b, "```") {
        assert(t.subrange(t.len() - 3, t.len() as int) =~= v@.subrange(b - 3, b as int));
        return None;
    }
    assert(t.subrange(0, ol as int) =~= v@.subrange(a as int, a + ol));
    assert(t.subrange(t.len() - 3, t.len() as int) =~= v@.subrange(b - 3, b as int));
    let mut i = a + ol;
    let end = b - 3;
    assert(t.subrange(ol as int, t.len() - 3) =~= v@.subrange(i as int, end as int));
    while i < end && v[i] == '\n'
        invariant
            a + ol <= i <= end <= v.len(),
            trim_start_newlines(t.subrange(ol as int, t.len() - 3)) == trim_start_newlines(
                v@.subrange(i as int, end as int),
            ),
        decreases end - i,
    {
        assert(v@.subrange(i as int, end as int).drop_first() =~= v@.subrange(i + 1, end as int));
        i = i + 1;
    }
    let j = skip_whitespace_back(v, i, end);
    Some(string_of(v, i, j))
}

/// Strips a Markdown code fence ("```rust" or "```") around a model's reply.
pub fn strip_code_fences(s: &str) -> (r: String)
    ensures
        r@ == code_in_reply(s@),
{
    let v = chars_of(s);
    let a = skip_whitespace(&v, 0, v.len());
    let b = skip_whitespace_back(&v, a, v.len());
    assert(v@.subrange(0, v.len() as int) =~= s@);
    if let Some(code) = unfence(&v, a, b, "```rust") {
        return code;
    }
    if let Some(code) = unfence(&v, a, b, "```") {
        return code;
    }
    string_of(&v, a, b)
}


/// `s` without leading and trailing whitespace.
pub fn trimmed(s: &str) -> (r: String)
    ensures
        r@ == trim(s@),
{
    let v = chars_of(s);
    let a = skip_whitespace(&v, 0, v.len());
    let b = skip_whitespace_back(&v, a, v.len());
    assert(v@.subrange(0, v.len() as int) =~= s@);
    string_of(&v, a, b)
}

/// The single prompt sent to the model: the trimmed system prompt, a rule,
/// and the trimmed user prompt.
pub open spec fn prompt_text(system: Seq<char>, user: Seq<char>) -> Seq<char> {
    trim(system) + "\n\n---\n\n"@ + trim(user)
}

/// Joins a system prompt and a user prompt into the one prompt the model
/// command line takes.
pub fn compose_prompt(system: &str, user: &str) -> (r: String)
    ensures
        r@ == prompt_text(system@, user@),
{
    let mut r = trimmed(system);
    r.append("\n\n---\n\n");
    let u = trimmed(user);
    r.append(u.as_str());
    r
}

/// The hint on counts that goes with a hypothesis' test type.
pub open spec fn bins_hint_text(test_type: Seq<char>, bins: u32) -> Seq<char> {
    if test_type == "chi_squared"@ {
        "TestType::ChiSquared("@ + decimal((bins - 1) as nat) + ") with "@ + decimal(bins as nat)
            + " counts"@
    } else if test_type == "fisher_exact"@ {
        "TestType::FisherExact with exactly 4 counts [a, b, c, d]"@
    } else if test_type == "ks"@ {
        "TestType::KolmogorovSmirnov with "@ + decimal(bins as nat) + " bins"@
    } else {
        "TestType::Bootstrap with "@ + decimal(bins as nat) + " bins"@
    }
}

/// The hint on counts that goes with a hypothesis' test type; a
/// chi-squared test over `bins` bins has `bins - 1` degrees of freedom.
pub fn bins_hint(test_type: &str, bins: u32) -> (r: String)
    requires
        test_type@ == "chi_squared"@ ==> bins >= 1,
    ensures
        r@ == bins_hint_text(test_type@, bins),
{
    if str_eq(test_type, "chi_squared") {
        let mut r = String::from_str("TestType::ChiSquared(");
        push_decimal(&mut r, (bins - 1) as u64);
        r.append(") with ");
        push_decimal(&mut r, bins as u64);
        r.append(" counts");
        r
    } else if str_eq(test_type, "fisher_exact") {
        String::from_str("TestType::FisherExact with exactly 4 counts [a, b, c, d]")
    } else if str_eq(test_type, "ks") {
        let mut r = String::from_str("TestType::KolmogorovSmirnov with ");
        push_decimal(&mut r, bins as u64);
        r.append(" bins");
        r
    } else {
        let mut r = String::from_str("TestType::Bootstrap with ");
        push_decimal(&mut r, bins as u64);
        r.append(" bins");
        r
    }
}

/// The line that lists one attempted hypothesis in a prompt.
pub open spec fn known_line(h: Hypothesis) -> Seq<char> {
    "- "@ + h.description@ + " ("@ + h.family@ + ")"@
}

/// The attempted hypotheses, one line each.
pub open spec fn known_lines(s: Seq<Hypothesis>) -> Seq<char>
    decreases s.len(),
{
    if s.len() == 0 {
        Seq::empty()
    } else if s.len() == 1 {
        known_line(s[0])
    } else {
        known_lines(s.drop_last()) + "\n"@ + known_line(s.last())
    }
}

/// The list of attempted hypotheses for the hypothesis prompt, or
/// "None yet." when there is none.
pub fn known_patterns_text(known: &Vec<Hypothesis>) -> (r: String)
    ensures
        r@ == if known@.len() == 0 {
            "None yet."@
        } else {
            known_lines(known@)
        },
{
    if known.len() == 0 {
        return String::from_str("None yet.");
    }
    let mut r = String::new();
    let mut i: usize = 0;
    while i < known.len()
        invariant
            i <= known.len(),
            r@ == known_lines(known@.subrange(0, i as int)),
        decreases known.len() - i,
    {
        if i > 0 {
            r.append("\n");
        }
        r.append("- ");
        r.append(known[i].description.as_str());
        r.append(" (");
        r.append(known[i].family.as_str());
        r.append(")");
        assert(known@.subrange(0, i + 1).drop_last() =~= known@.subrange(0, i as int));
        assert(r@ =~= known_lines(known@.subrange(0, i + 1)));
        i = i + 1;
    }
    assert(known@.subrange(0, known@.len() as int) =~= known@);
    r
}

/// The attempted hypotheses are listed in order, one per line: line `i`
/// shows `s[i]`.
pub proof fn lemma_known_lines_list_each_hypothesis(s: Seq<Hypothesis>)
    ensures
        known_lines(s) == joined(Seq::new(s.len(), |i: int| known_line(s[i])), "\n"@),
    decreases s.len(),
{
    let items = Seq::new(s.len(), |i: int| known_line(s[i]));
    if s.len() > 1 {
        lemma_known_lines_list_each_hypothesis(s.drop_last());
        assert(items.drop_last() =~= Seq::new(
            s.drop_last().len(),
            |i: int| known_line(s.drop_last()[i]),
        ));
    }
}

} // verus!
