//! Published patterns and the pattern feed.

use vstd::prelude::*;
use vstd::string::StringSliceAdditionalSpecFns;

use crate::hash::{short_hash_hex, short_id};
use crate::sort::{keys_distinct, lemma_permutation_keeps_keys_distinct};
use crate::text::{
    lemma_text_lt_irreflexive, lemma_text_lt_total, lemma_text_lt_transitive, str_eq, text_less,
    text_lt,
};

verus! {

// ── base64 ──────────────────────────────────────────────────────────────────

/// The symbol of the standard base64 alphabet for `v` (`0 <= v < 64`).
pub open spec fn b64_symbol(v: int) -> char {
    if v < 26 {
        (65 + v) as char
    } else if v < 52 {
        (71 + v) as char
    } else if v < 62 {
        (v - 4) as char
    } else if v == 62 {
        '+'
    } else {
        '/'
    }
}

/// Standard base64 (RFC 4648, with `=` padding) of `b`.
pub open spec fn b64_encode(b: Seq<u8>) -> Seq<char>
    decreases b.len(),
{
    if b.len() == 0 {
        Seq::empty()
    } else {
        let b0 = b[0] as int;
        let b1 = if b.len() > 1 { b[1] as int } else { 0 };
        let b2 = if b.len() > 2 { b[2] as int } else { 0 };
        if b.len() == 1 {
            seq![b64_symbol(b0 / 4), b64_symbol((b0 % 4) * 16), '=', '=']
        } else if b.len() == 2 {
            seq![b64_symbol(b0 / 4), b64_symbol((b0 % 4) * 16 + b1 / 16), b64_symbol((b1 % 16) * 4), '=']
        } else {
            seq![
                b64_symbol(b0 / 4),
                b64_symbol((b0 % 4) * 16 + b1 / 16),
                b64_symbol((b1 % 16) * 4 + b2 / 64),
                b64_symbol(b2 % 64),
            ] + b64_encode(b.subrange(3, b.len() as int))
        }
    }
}

/// Whether `s` is the standard padded base64 encoding of some bytes.
pub open spec fn is_b64_text(s: Seq<char>) -> bool {
    exists|b: Seq<u8>| #[trigger] b64_encode(b) == s
}

#[verifier::external_type_specification]
#[verifier::external_body]
pub struct ExDecodeError(base64::DecodeError);

/// Calls `base64::engine::general_purpose::STANDARD.encode`. Trusted: the
/// result is the standard padded base64 of `data`. The call panics when the
/// encoded length overflows `usize`, which `requires` rules out.
#[verifier::external_body]
fn base64_encode(data: &[u8]) -> (r: String)
    requires
        encodable(data@),
    ensures
        r@ == b64_encode(data@),
{
    base64::Engine::encode(&base64::engine::general_purpose::STANDARD, data)
}

/// Calls `base64::engine::general_purpose::STANDARD.decode`. Trusted: the
/// STANDARD engine requires canonical padding and refuses trailing bits, so
/// it succeeds exactly on the padded encodings of byte strings, and then
/// returns the bytes encoded. Which error comes for which input is not
/// stated.
#[verifier::external_body]
fn base64_decode(s: &str) -> (r: Result<Vec<u8>, base64::DecodeError>)
    ensures
        r is Ok <==> is_b64_text(s@),
        r matches Ok(v) ==> b64_encode(v@) == s@,
        forall|b: Seq<u8>| #[trigger] b64_encode(b) == s@ ==> r is Ok && r->Ok_0@ == b,
{
    base64::Engine::decode(&base64::engine::general_purpose::STANDARD, s)
}

// ── time ────────────────────────────────────────────────────────────────────

/// Calls `chrono::Utc::now().to_rfc2822()`: the current time as an RFC 2822
/// string. It depends on the clock, so nothing is stated of it.
#[verifier::external_body]
fn now_rfc2822() -> String {
    chrono::Utc::now().to_rfc2822()
}

// ── Pattern ─────────────────────────────────────────────────────────────────

/// Why the feed could not give back a pattern's detector.
#[derive(Debug, Clone, Copy, PartialEq, Eq)]
pub enum FeedError {
    /// The stored detector is not valid base64.
    InvalidEncoding,
}

/// A published, significant pattern: the atom of the feed.
///
/// The statistics are kept as the IEEE-754 bits of the `f64` values
/// (`f64::to_bits`); nothing here computes with them.
#[derive(Debug, Clone)]
pub struct Pattern {
    /// First 16 hex digits of BLAKE3(wasm bytes ‖ corpus id): the content address.
    pub id: String,
    /// First 16 hex digits of BLAKE3(wasm bytes).
    pub wasm_hash: String,
    pub corpus_id: String,
    pub description: String,
    pub hypothesis: String,
    pub family: String,
    pub counts: Vec<u64>,
    pub sample_size: u64,
    pub detail: String,
    /// Bits of the raw p-value of the statistical test.
    pub p_value_bits: u64,
    /// Bits of the BH-adjusted q-value of the batch the pattern came from.
    pub q_value_bits: u64,
    /// Bits of the effect size.
    pub effect_size_bits: u64,
    /// RFC 2822 timestamp.
    pub published_at: String,
    /// The detector's .wasm bytes in base64, for offline verification.
    pub wasm_b64: String,
}

/// The content address of a detector run against a corpus.
pub open spec fn pattern_id(wasm: Seq<u8>, corpus_id: Seq<char>) -> Seq<char> {
    short_id(wasm + encode_utf8_of(corpus_id))
}

/// The UTF-8 bytes of a text.
pub open spec fn encode_utf8_of(s: Seq<char>) -> Seq<u8> {
    vstd::utf8::encode_utf8(s)
}

/// Whether `p` is the pattern made from these values.
pub open spec fn pattern_holds(
    p: Pattern,
    wasm: Seq<u8>,
    corpus_id: Seq<char>,
    description: Seq<char>,
    hypothesis: Seq<char>,
    family: Seq<char>,
    counts: Seq<u64>,
    sample_size: u64,
    detail: Seq<char>,
    p_value_bits: u64,
    q_value_bits: u64,
    effect_size_bits: u64,
) -> bool {
    &&& p.id@ == pattern_id(wasm, corpus_id)
    &&& p.wasm_hash@ == short_id(wasm)
    &&& p.corpus_id@ == corpus_id
    &&& p.description@ == description
    &&& p.hypothesis@ == hypothesis
    &&& p.family@ == family
    &&& p.counts@ == counts
    &&& p.sample_size == sample_size
    &&& p.detail@ == detail
    &&& p.p_value_bits == p_value_bits
    &&& p.q_value_bits == q_value_bits
    &&& p.effect_size_bits == effect_size_bits
    &&& p.wasm_b64@ == b64_encode(wasm)
}

/// The bounds under which a detector's bytes can be addressed and encoded.
pub open spec fn encodable(wasm: Seq<u8>) -> bool {
    wasm.len() / 3 * 4 + (if wasm.len() % 3 > 0 {
        4int
    } else {
        0int
    }) <= usize::MAX
}

/// Whether `Pattern::new` can take this component and corpus id: the
/// component's base64 text and the hashed bytes fit in memory's range.
pub fn publishable(wasm: &[u8], corpus_id: &str) -> (r: bool)
    ensures
        r == (encodable(wasm@) && wasm@.len() + corpus_id.spec_bytes().len() <= usize::MAX),
{
    let n = wasm.len();
    let q = n / 3;
    let tail: usize = if n % 3 > 0 {
        4
    } else {
        0
    };
    assert(q == wasm@.len() / 3);
    if q > (usize::MAX - tail) / 4 {
        assert(q * 4 + tail > usize::MAX) by (nonlinear_arith)
            requires
                q > (usize::MAX - tail) / 4,
                tail <= 4,
        ;
        return false;
    }
    assert(q * 4 + tail <= usize::MAX) by (nonlinear_arith)
        requires
            q <= (usize::MAX - tail) / 4,
            tail <= 4,
    ;
    let id_len = corpus_id.as_bytes().len();
    assert(id_len == corpus_id.spec_bytes().len());
    n <= usize::MAX - id_len
}

impl Pattern {
    /// Builds a pattern published at the given time.
    pub fn new_at(
        wasm_bytes: &[u8],
        corpus_id: &str,
        description: String,
        hypothesis: String,
        family: String,
        counts: Vec<u64>,
        sample_size: u64,
        detail: String,
        p_value_bits: u64,
        q_value_bits: u64,
        effect_size_bits: u64,
        published_at: String,
    ) -> (p: Pattern)
        requires
            encodable(wasm_bytes@),
            wasm_bytes@.len() + corpus_id.spec_bytes().len() <= usize::MAX,
        ensures
            pattern_holds(
                p,
                wasm_bytes@,
                corpus_id@,
                description@,
                hypothesis@,
                family@,
                counts@,
                sample_size,
                detail@,
                p_value_bits,
                q_value_bits,
                effect_size_bits,
            ),
            p.published_at == published_at,
    {
        let wasm_hash = short_hash_hex(wasm_bytes);
        let mut keyed: Vec<u8> = Vec::new();
        let mut i: usize = 0;
        while i < wasm_bytes.len()
            invariant
                i <= wasm_bytes.len(),
                keyed@ == wasm_bytes@.subrange(0, i as int),
            decreases wasm_bytes.len() - i,
        {
            keyed.push(wasm_bytes[i]);
            i = i + 1;
            assert(keyed@ =~= wasm_bytes@.subrange(0, i as int));
        }
        let cb = corpus_id.as_bytes();
        let mut j: usize = 0;
        while j < cb.len()
            invariant
                j <= cb.len(),
                cb@ == corpus_id.spec_bytes(),
                wasm_bytes@.len() + cb@.len() <= usize::MAX,
                keyed@ == wasm_bytes@ + cb@.subrange(0, j as int),
            decreases cb.len() - j,
        {
            keyed.push(cb[j]);
            j = j + 1;
            assert(keyed@ =~= wasm_bytes@ + cb@.subrange(0, j as int));
        }
        assert(cb@.subrange(0, cb@.len() as int) =~= cb@);
        let id = short_hash_hex(keyed.as_slice());
        let wasm_b64 = base64_encode(wasm_bytes);
        Pattern {
            id,
            wasm_hash,
            corpus_id: String::from_str(corpus_id),
            description,
            hypothesis,
            family,
            counts,
            sample_size,
            detail,
            p_value_bits,
            q_value_bits,
            effect_size_bits,
            published_at,
            wasm_b64,
        }
    }

    /// Builds a pattern published now.
    pub fn new(
        wasm_bytes: &[u8],
        corpus_id: &str,
        description: String,
        hypothesis: String,
        family: String,
        counts: Vec<u64>,
        sample_size: u64,
        detail: String,
        p_value_bits: u64,
        q_value_bits: u64,
        effect_size_bits: u64,
    ) -> (p: Pattern)
        requires
            encodable(wasm_bytes@),
            wasm_bytes@.len() + corpus_id.spec_bytes().len() <= usize::MAX,
        ensures
            pattern_holds(
                p,
                wasm_bytes@,
                corpus_id@,
                description@,
                hypothesis@,
                family@,
                counts@,
                sample_size,
                detail@,
                p_value_bits,
                q_value_bits,
                effect_size_bits,
            ),
    {
        let published_at = now_rfc2822();
        Pattern::new_at(
            wasm_bytes,
            corpus_id,
            description,
            hypothesis,
            family,
            counts,
            sample_size,
            detail,
            p_value_bits,
            q_value_bits,
            effect_size_bits,
            published_at,
        )
    }

    /// The detector's .wasm bytes, decoded from the stored base64.
    pub fn wasm_bytes(&self) -> (r: Result<Vec<u8>, FeedError>)
        ensures
            r is Ok <==> is_b64_text(self.wasm_b64@),
            r matches Ok(v) ==> b64_encode(v@) == self.wasm_b64@,
            forall|b: Seq<u8>|
                #[trigger] b64_encode(b) == self.wasm_b64@ ==> (r matches Ok(v) && v@ == b),
    {
        match base64_decode(self.wasm_b64.as_str()) {
            Ok(v) => Ok(v),
            Err(_) => Err(FeedError::InvalidEncoding),
        }
    }

    /// The one-line command that reproduces this pattern.
    pub fn verify_cmd(&self) -> (r: String)
        ensures
            r@ == "superstition-verify "@ + self.id@,
    {
        let mut r = String::from_str("superstition-verify ");
        r.append(self.id.as_str());
        r
    }
}

// ── FeedStore ───────────────────────────────────────────────────────────────

/// The JSON-backed, append-only pattern store at a path.
pub struct FeedStore {
    path: String,
}

impl FeedStore {
    pub closed spec fn spec_path(&self) -> Seq<char> {
        self.path@
    }

    /// The store kept at `path` (nothing is read until it is used).
    pub fn open(path: &str) -> (s: FeedStore)
        ensures
            s.spec_path() == path@,
    {
        FeedStore { path: String::from_str(path) }
    }

    /// Where the store is kept.
    pub fn path(&self) -> (p: &str)
        ensures
            p@ == self.spec_path(),
    {
        self.path.as_str()
    }
}

/// Whether a pattern was published at `t`.
pub open spec fn published_is(t: Seq<char>) -> spec_fn(Pattern) -> bool {
    |p: Pattern| p.published_at@ == t
}

/// Whether a pattern's id differs from `id`.
pub open spec fn id_is_not(id: Seq<char>) -> spec_fn(Pattern) -> bool {
    |p: Pattern| p.id@ != id
}

/// Whether newer patterns come first (later `published_at` text first).
pub open spec fn newest_first(s: Seq<Pattern>) -> bool {
    forall|i: int, j: int|
        0 <= i <= j < s.len() ==> !text_lt(#[trigger] s[i].published_at@, #[trigger] s[j].published_at@)
}

/// Whether `r` is `s` ordered newest first, patterns with the same
/// `published_at` keeping their order.
pub open spec fn is_newest_first_sort_of(r: Seq<Pattern>, s: Seq<Pattern>) -> bool {
    &&& newest_first(r)
    &&& forall|t: Seq<char>| #[trigger] r.filter(published_is(t)) == s.filter(published_is(t))
}

proof fn lemma_filter_none(s: Seq<Pattern>, pred: spec_fn(Pattern) -> bool)
    requires
        forall|i: int| 0 <= i < s.len() ==> !pred(#[trigger] s[i]),
    ensures
        s.filter(pred) == Seq::<Pattern>::empty(),
    decreases s.len(),
{
    reveal(Seq::filter);
    if s.len() > 0 {
        lemma_filter_none(s.drop_last(), pred);
    }
}

/// Orders patterns newest first; patterns published at the same time keep
/// their order.
pub fn sort_newest_first(v: Vec<Pattern>) -> (r: Vec<Pattern>)
    ensures
        is_newest_first_sort_of(r@, v@),
        r@.to_multiset() == v@.to_multiset(),
{
    broadcast use vstd::seq_lib::group_to_multiset_ensures;

    let ghost s = v@;
    let mut rest = v;
    let mut r: Vec<Pattern> = Vec::new();
    assert(s.subrange(0, 0) =~= r@);
    while rest.len() > 0
        invariant
            rest.len() <= s.len(),
            rest@ == s.subrange(s.len() - rest.len(), s.len() as int),
            is_newest_first_sort_of(r@, s.subrange(0, s.len() - rest.len())),
            r@.to_multiset() == s.subrange(0, s.len() - rest.len()).to_multiset(),
        decreases rest.len(),
    {
        let ghost i = s.len() - rest.len();
        let x = rest.remove(0);
        assert(rest@ =~= s.subrange(s.len() - rest.len(), s.len() as int));
        let mut p = r.len();
        while p > 0 && text_less(r[p - 1].published_at.as_str(), x.published_at.as_str())
            invariant
                p <= r.len(),
                forall|j: int| p <= j < r.len() ==> text_lt(r@[j].published_at@, x.published_at@),
            decreases p,
        {
            p = p - 1;
        }
        let ghost old_r = r@;
        r.insert(p, x);
        proof {
            vstd::seq_lib::to_multiset_insert(old_r, p as int, x);
            vstd::seq_lib::to_multiset_build(s.subrange(0, i), x);
            let pre = old_r.subrange(0, p as int);
            let post = old_r.subrange(p as int, old_r.len() as int);
            assert(old_r =~= pre + post);
            assert(r@ =~= pre.push(x) + post);
            assert(s.subrange(0, i + 1) =~= s.subrange(0, i).push(x));
            assert forall|t: Seq<char>| #[trigger] r@.filter(published_is(t)) == s.subrange(
                0,
                i + 1,
            ).filter(published_is(t)) by {
                let pred = published_is(t);
                assert(old_r.filter(pred) == s.subrange(0, i).filter(pred));
                pre.lemma_filter_push(x, pred);
                s.subrange(0, i).lemma_filter_push(x, pred);
                Seq::filter_distributes_over_add(pre.push(x), post, pred);
                Seq::filter_distributes_over_add(pre, post, pred);
                if t == x.published_at@ {
                    assert forall|j: int| 0 <= j < post.len() implies !pred(#[trigger] post[j]) by {
                        lemma_text_lt_irreflexive(x.published_at@);
                        assert(text_lt(old_r[p + j].published_at@, x.published_at@));
                    }
                    lemma_filter_none(post, pred);
                    assert(pre.filter(pred) + post.filter(pred) =~= pre.filter(pred));
                    assert(pre.push(x).filter(pred) + post.filter(pred) =~= pre.filter(pred).push(x));
                } else {
                    assert(pre.push(x).filter(pred) == pre.filter(pred));
                }
            }
            assert forall|a: int, b: int| 0 <= a <= b < r@.len() implies !text_lt(
                #[trigger] r@[a].published_at@,
                #[trigger] r@[b].published_at@,
            ) by {
                let xa = x.published_at@;
                lemma_text_lt_irreflexive(xa);
                if a < p && b == p {
                    let q = old_r[p - 1].published_at@;
                    lemma_text_lt_total(q, xa);
                    if text_lt(old_r[a].published_at@, xa) {
                        assert(!text_lt(old_r[a].published_at@, q));
                        lemma_text_lt_total(old_r[a].published_at@, q);
                        if old_r[a].published_at@ != q {
                            lemma_text_lt_transitive(q, old_r[a].published_at@, xa);
                        }
                    }
                } else if a < p && b > p {
                    assert(!text_lt(old_r[a].published_at@, old_r[b - 1].published_at@));
                } else if a == p && b > p {
                    lemma_text_lt_total(old_r[b - 1].published_at@, xa);
                } else if a > p {
                    assert(!text_lt(old_r[a - 1].published_at@, old_r[b - 1].published_at@));
                }
            }
        }
    }
    assert(s.subrange(0, s.len() as int) =~= s);
    r
}

/// The first pattern in `s` whose id is `id`.
pub open spec fn first_with_id(s: Seq<Pattern>, id: Seq<char>) -> Option<Pattern>
    decreases s.len(),
{
    if s.len() == 0 {
        None
    } else if s[0].id@ == id {
        Some(s[0])
    } else {
        first_with_id(s.drop_first(), id)
    }
}

proof fn lemma_first_with_id(s: Seq<Pattern>, id: Seq<char>, p: Pattern)
    requires
        s.contains(p),
        p.id@ == id,
        forall|i: int| 0 <= i < s.len() && (#[trigger] s[i]).id@ == id ==> s[i] == p,
    ensures
        first_with_id(s, id) == Some(p),
    decreases s.len(),
{
    if s[0].id@ != id {
        let k = choose|k: int| 0 <= k < s.len() && s[k] == p;
        assert(s.drop_first()[k - 1] == p);
        lemma_first_with_id(s.drop_first(), id, p);
    }
}

/// A pattern just published is the one the feed gives back for its id:
/// whatever the feed held, looking up the id of a published pattern in the
/// resulting feed finds that pattern.
pub proof fn lemma_published_pattern_is_found(r: Seq<Pattern>, old: Seq<Pattern>, p: Pattern)
    requires
        is_newest_first_sort_of(r, old.filter(id_is_not(p.id@)).push(p)),
    ensures
        first_with_id(r, p.id@) == Some(p),
{
    let t = old.filter(id_is_not(p.id@)).push(p);
    let g = published_is(p.published_at@);
    assert(t[t.len() - 1] == p);
    t.lemma_filter_contains(g, t.len() - 1);
    assert(r.filter(g) == t.filter(g));
    r.lemma_filter_contains_rev(g, p);
    assert forall|i: int| 0 <= i < r.len() && (#[trigger] r[i]).id@ == p.id@ implies r[i] == p by {
        let gi = published_is(r[i].published_at@);
        r.lemma_filter_contains(gi, i);
        assert(r.filter(gi) == t.filter(gi));
        t.lemma_filter_contains_rev(gi, r[i]);
        let k = choose|k: int| 0 <= k < t.len() && t[k] == r[i];
        if k < t.len() - 1 {
            let o = old.filter(id_is_not(p.id@));
            assert(o[k] == r[i]);
            #[allow(deprecated)]
            o.filter_lemma(id_is_not(p.id@));
            assert(o.contains(r[i]));
            old.lemma_filter_contains_rev(id_is_not(p.id@), r[i]);
            assert(id_is_not(p.id@)(o[k]));
        }
    }
    lemma_first_with_id(r, p.id@, p);
}

/// A pattern's id.
pub open spec fn id_of() -> spec_fn(Pattern) -> Seq<char> {
    |p: Pattern| p.id@
}

/// Whether no two patterns of the feed share an id.
pub open spec fn ids_unique(s: Seq<Pattern>) -> bool {
    keys_distinct(s, id_of())
}

proof fn lemma_filter_keeps_ids_unique(s: Seq<Pattern>, pred: spec_fn(Pattern) -> bool)
    requires
        ids_unique(s),
    ensures
        ids_unique(s.filter(pred)),
    decreases s.len(),
{
    reveal(Seq::filter);
    if s.len() > 0 {
        let w = s.drop_last();
        assert forall|i: int, j: int| 0 <= i < j < w.len() implies id_of()(#[trigger] w[i]) != id_of()(
            #[trigger] w[j],
        ) by {
            assert(w[i] == s[i] && w[j] == s[j]);
        }
        lemma_filter_keeps_ids_unique(w, pred);
        if pred(s.last()) {
            let f = w.filter(pred);
            assert(s.filter(pred) == f.push(s.last()));
            assert forall|i: int, j: int| 0 <= i < j < f.len() + 1 implies id_of()(
                #[trigger] f.push(s.last())[i],
            ) != id_of()(#[trigger] f.push(s.last())[j]) by {
                if j == f.len() {
                    w.lemma_filter_contains_rev(pred, f[i]);
                    let k = choose|k: int| 0 <= k < w.len() && w[k] == f[i];
                    assert(s[k] == f[i]);
                } else {
                    assert(f.push(s.last())[i] == f[i] && f.push(s.last())[j] == f[j]);
                }
            }
        }
    }
}

/// Publishing keeps the feed's ids unique: a feed with no two patterns of
/// one id has none after a pattern is published into it.
pub proof fn lemma_publish_keeps_ids_unique(r: Seq<Pattern>, old: Seq<Pattern>, p: Pattern)
    requires
        ids_unique(old),
        r.to_multiset() == old.filter(id_is_not(p.id@)).push(p).to_multiset(),
    ensures
        ids_unique(r),
{
    let o = old.filter(id_is_not(p.id@));
    let t = o.push(p);
    lemma_filter_keeps_ids_unique(old, id_is_not(p.id@));
    assert forall|i: int, j: int| 0 <= i < j < t.len() implies id_of()(#[trigger] t[i]) != id_of()(
        #[trigger] t[j],
    ) by {
        if j == o.len() {
            old.lemma_filter_contains_rev(id_is_not(p.id@), o[i]);
            #[allow(deprecated)]
            old.filter_lemma(id_is_not(p.id@));
            assert(id_is_not(p.id@)(o[i]));
        } else {
            assert(t[i] == o[i] && t[j] == o[j]);
        }
    }
    lemma_permutation_keeps_keys_distinct(t, r, id_of());
}

impl FeedStore {
    /// The feed after publishing `pattern` into the feed's current
    /// `patterns`: any pattern with the same id is replaced, and the feed is
    /// ordered newest first.
    pub fn publish(&self, patterns: Vec<Pattern>, pattern: Pattern) -> (r: Vec<Pattern>)
        ensures
            is_newest_first_sort_of(r@, patterns@.filter(id_is_not(pattern.id@)).push(pattern)),
            r@.to_multiset() == patterns@.filter(id_is_not(pattern.id@)).push(pattern).to_multiset(),
    {
        let ghost s = patterns@;
        let mut kept: Vec<Pattern> = Vec::new();
        let mut rest = patterns;
        while rest.len() > 0
            invariant
                rest.len() <= s.len(),
                rest@ == s.subrange(s.len() - rest.len(), s.len() as int),
                kept@ == s.subrange(0, s.len() - rest.len()).filter(id_is_not(pattern.id@)),
            decreases rest.len(),
        {
            let ghost i = s.len() - rest.len();
            let q = rest.remove(0);
            assert(rest@ =~= s.subrange(s.len() - rest.len(), s.len() as int));
            assert(s.subrange(0, i + 1) =~= s.subrange(0, i).push(q));
            proof {
                s.subrange(0, i).lemma_filter_push(q, id_is_not(pattern.id@));
            }
            if !str_eq(q.id.as_str(), pattern.id.as_str()) {
                kept.push(q);
            }
        }
        assert(s.subrange(0, s.len() as int) =~= s);
        kept.push(pattern);
        sort_newest_first(kept)
    }

    /// The first pattern of the feed's `patterns` with the given id.
    pub fn get(&self, patterns: Vec<Pattern>, id: &str) -> (r: Option<Pattern>)
        ensures
            r == first_with_id(patterns@, id@),
    {
        let mut i: usize = 0;
        assert(patterns@.subrange(0, patterns@.len() as int) =~= patterns@);
        while i < patterns.len()
            invariant
                i <= patterns.len(),
                first_with_id(patterns@, id@) == first_with_id(
                    patterns@.subrange(i as int, patterns@.len() as int),
                    id@,
                ),
            decreases patterns.len() - i,
        {
            let ghost rest = patterns@.subrange(i as int, patterns@.len() as int);
            if str_eq(patterns[i].id.as_str(), id) {
                let mut ps = patterns;
                return Some(ps.remove(i));
            }
            assert(rest.drop_first() =~= patterns@.subrange(i + 1, patterns@.len() as int));
            i = i + 1;
        }
        None
    }
}

} // verus!
