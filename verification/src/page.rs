//! The HTML page and RSS document of the public feed.

use vstd::prelude::*;

use crate::feed::Pattern;
use crate::render::{html_escape, html_escaped, xml_escape, xml_escaped};
use crate::text::joined;

verus! {

/// The page up to the table rows.
pub const PAGE_HEAD: &'static str = r#"<!DOCTYPE html>
<html lang="en">
<head>
<meta charset="UTF-8">
<meta name="viewport" content="width=device-width,initial-scale=1">
<title>Superstition — Verifiable On-Chain Patterns</title>
<style>
  :root {
    --bg: #0d1117; --surface: #161b22; --border: #30363d;
    --text: #e6edf3; --muted: #8b949e; --accent: #58a6ff;
    --green: #3fb950; --purple: #d2a8ff;
  }
  * { box-sizing: border-box; margin: 0; padding: 0; }
  body { background: var(--bg); color: var(--text); font-family: -apple-system,BlinkMacSystemFont,"Segoe UI",monospace; line-height: 1.6; }
  header { border-bottom: 1px solid var(--border); padding: 1.5rem 2rem; display: flex; align-items: baseline; gap: 1rem; }
  header h1 { font-size: 1.4rem; color: var(--accent); }
  header p { color: var(--muted); font-style: italic; font-size: 0.9rem; }
  .links { margin-left: auto; font-size: 0.8rem; }
  .links a { color: var(--muted); text-decoration: none; margin-left: 1rem; }
  .links a:hover { color: var(--text); }
  main { padding: 2rem; max-width: 1100px; margin: 0 auto; }
  .tagline { color: var(--muted); font-size: 0.85rem; margin-bottom: 1.5rem; }
  .tagline code { background: var(--surface); padding: 0.1em 0.4em; border-radius: 3px; color: var(--purple); }
  table { width: 100%; border-collapse: collapse; font-size: 0.85rem; }
  th { text-align: left; color: var(--muted); font-weight: 600; padding: 0.5rem 1rem; border-bottom: 1px solid var(--border); }
  td { padding: 0.6rem 1rem; border-bottom: 1px solid var(--border); vertical-align: top; }
  tr:hover td { background: var(--surface); }
  .id { font-family: monospace; color: var(--muted); font-size: 0.78rem; cursor: help; }
  .family { background: var(--surface); border: 1px solid var(--border); padding: 0.1em 0.5em; border-radius: 3px; font-size: 0.78rem; color: var(--purple); white-space: nowrap; }
  .mono { font-family: monospace; color: var(--green); }
  .verify { color: var(--muted); font-size: 0.78rem; user-select: all; }
  .verify:hover { color: var(--text); }
  footer { border-top: 1px solid var(--border); padding: 1rem 2rem; color: var(--muted); font-size: 0.78rem; }
</style>
</head>
<body>
<header>
  <h1>✦ Superstition</h1>
  <p>Verifiable astrology for on-chain data.</p>
  <nav class="links">
    <a href="/feed.rss">RSS</a>
    <a href="/api/patterns">JSON</a>
  </nav>
</header>
<main>
  <p class="tagline">
    Every pattern carries a <code>wasm_hash</code>, a <code>corpus_id</code>, and a corrected
    <code>q-value</code>. Reproduce any result: paste the <em>verify</em> command below.
  </p>
  <table>
    <thead>
      <tr>
        <th>ID</th><th>Description</th><th>Family</th>
        <th>q-value</th><th>Effect</th><th>Reproduce</th>
      </tr>
    </thead>
    <tbody>
"#;

/// The page after the table rows.
pub const PAGE_TAIL: &'static str = r#"
    </tbody>
  </table>
</main>
<footer>
  <em>"The stars don't lie. They just don't always tell the truth."</em>
</footer>
</body>
</html>"#;

/// The row shown when the feed is empty.
pub const EMPTY_ROW: &'static str = "<tr><td colspan=\"6\" style=\"text-align:center;color:#8b949e;padding:2rem\">No significant patterns published yet.</td></tr>";

/// A pattern's figures as shown in the feed, already written out as text
/// (the q-value in scientific notation, the effect size to three places).
pub struct Figures {
    pub q: String,
    pub effect: String,
}


/// The RSS document up to its items.
pub const RSS_HEAD: &'static str = r#"<?xml version="1.0" encoding="UTF-8"?>
<rss version="2.0">
  <channel>
    <title>Superstition — Verifiable On-Chain Patterns</title>
    <link>http://localhost:8080</link>
    <description>Statistically significant patterns in EVM chain data, reproducible from bytecode alone.</description>
    <language>en</language>
"#;

/// The RSS document after its items.
pub const RSS_TAIL: &'static str = r#"
  </channel>
</rss>"#;

/// How many bytes UTF-8 takes for `c`.
pub open spec fn utf8_width(c: char) -> nat {
    if (c as int) < 0x80 {
        1
    } else if (c as int) < 0x800 {
        2
    } else if (c as int) < 0x10000 {
        3
    } else {
        4
    }
}

/// The number of leading characters of `s` whose UTF-8 encoding is exactly
/// `n` bytes long, if `n` falls on a character boundary within `s`.
pub open spec fn chars_in_bytes(s: Seq<char>, n: int) -> Option<nat>
    decreases s.len(),
{
    if n == 0 {
        Some(0)
    } else if n < 0 || s.len() == 0 {
        None
    } else {
        match chars_in_bytes(s.drop_first(), n - utf8_width(s[0])) {
            Some(k) => Some(k + 1),
            None => None,
        }
    }
}

/// The short form of an id: its first 8 bytes.
pub open spec fn short_form(id: Seq<char>) -> Seq<char> {
    id.take(chars_in_bytes(id, 8).unwrap() as int)
}

fn width(c: char) -> (w: usize)
    ensures
        w == utf8_width(c),
{
    let u = c as u32;
    if u < 0x80 {
        1
    } else if u < 0x800 {
        2
    } else if u < 0x10000 {
        3
    } else {
        4
    }
}

/// The first 8 bytes of `id`.
fn short_id_text(id: &str) -> (r: String)
    requires
        chars_in_bytes(id@, 8) is Some,
    ensures
        r@ == short_form(id@),
{
    let v = crate::text::chars_of(id);
    let mut k: usize = 0;
    let mut left: usize = 8;
    assert(v@.subrange(0, v@.len() as int) =~= id@);
    while left > 0
        invariant
            v@ == id@,
            k <= v.len(),
            left <= 8,
            chars_in_bytes(id@, 8) is Some,
            chars_in_bytes(id@, 8) == match chars_in_bytes(v@.subrange(k as int, v@.len() as int), left as int) {
                Some(j) => Some((j + k) as nat),
                None => None::<nat>,
            },
        decreases left,
    {
        let ghost rest = v@.subrange(k as int, v@.len() as int);
        assert(chars_in_bytes(rest, left as int) is Some);
        assert(rest.len() > 0);
        assert(rest.drop_first() =~= v@.subrange(k + 1, v@.len() as int));
        let w = width(v[k]);
        assert(rest[0] == v@[k as int]);
        assert(chars_in_bytes(rest.drop_first(), left - w) is Some);
        assert(w <= left);
        left = left - w;
        k = k + 1;
    }
    assert(v@.subrange(0, v@.len() as int) =~= v@);
    crate::text::string_of(&v, 0, k)
}

/// One row of the feed's table.
pub open spec fn html_row(p: Pattern, f: Figures) -> Seq<char> {
    "<tr>\n  <td><span class=\"id\" title=\""@ + p.id@ + "\">"@ + short_form(p.id@)
        + "…</span></td>\n  <td>"@ + html_escaped(p.description@)
        + "</td>\n  <td><span class=\"family\">"@ + html_escaped(p.family@)
        + "</span></td>\n  <td class=\"mono\">"@ + f.q@ + "</td>\n  <td class=\"mono\">"@
        + f.effect@ + "</td>\n  <td class=\"mono verify\">superstition-verify "@ + p.id@
        + "</td>\n</tr>"@
}

/// The rows of the feed's table, one line apart.
pub open spec fn html_rows(ps: Seq<Pattern>, fs: Seq<Figures>) -> Seq<char>
    decreases ps.len(),
{
    if ps.len() == 0 {
        Seq::empty()
    } else if ps.len() == 1 {
        html_row(ps[0], fs[0])
    } else {
        html_rows(ps.drop_last(), fs.take(ps.len() - 1)) + "\n"@ + html_row(
            ps.last(),
            fs[ps.len() - 1],
        )
    }
}

/// The feed's HTML page.
pub open spec fn html_page(ps: Seq<Pattern>, fs: Seq<Figures>) -> Seq<char> {
    PAGE_HEAD@ + (if ps.len() == 0 {
        EMPTY_ROW@
    } else {
        html_rows(ps, fs)
    }) + PAGE_TAIL@
}

fn push_html_row(out: &mut String, p: &Pattern, f: &Figures)
    requires
        chars_in_bytes(p.id@, 8) is Some,
    ensures
        final(out)@ == old(out)@ + html_row(*p, *f),
{
    out.append("<tr>\n  <td><span class=\"id\" title=\"");
    out.append(p.id.as_str());
    out.append("\">");
    let short = short_id_text(p.id.as_str());
    out.append(short.as_str());
    out.append("…</span></td>\n  <td>");
    let d = html_escape(p.description.as_str());
    out.append(d.as_str());
    out.append("</td>\n  <td><span class=\"family\">");
    let fam = html_escape(p.family.as_str());
    out.append(fam.as_str());
    out.append("</span></td>\n  <td class=\"mono\">");
    out.append(f.q.as_str());
    out.append("</td>\n  <td class=\"mono\">");
    out.append(f.effect.as_str());
    out.append("</td>\n  <td class=\"mono verify\">superstition-verify ");
    out.append(p.id.as_str());
    out.append("</td>\n</tr>");
}

/// The feed's HTML page: one table row per pattern, in feed order, with
/// the figures written out by the caller.
pub fn render_html(patterns: &Vec<Pattern>, figures: &Vec<Figures>) -> (r: String)
    requires
        figures.len() == patterns.len(),
        forall|i: int| 0 <= i < patterns.len() ==> chars_in_bytes((#[trigger] patterns@[i]).id@, 8) is Some,
    ensures
        r@ == html_page(patterns@, figures@),
{
    let mut r = String::from_str(PAGE_HEAD);
    if patterns.len() == 0 {
        r.append(EMPTY_ROW);
    } else {
        let ghost start = r@;
        let mut i: usize = 0;
        while i < patterns.len()
            invariant
                figures.len() == patterns.len(),
                forall|j: int| 0 <= j < patterns.len() ==> chars_in_bytes((#[trigger] patterns@[j]).id@, 8) is Some,
                i <= patterns.len(),
                r@ == start + html_rows(patterns@.take(i as int), figures@.take(i as int)),
            decreases patterns.len() - i,
        {
            if i > 0 {
                r.append("\n");
            }
            push_html_row(&mut r, &patterns[i], &figures[i]);
            proof {
                let ps = patterns@.take(i + 1);
                let fs = figures@.take(i + 1);
                assert(ps.drop_last() =~= patterns@.take(i as int));
                assert(fs.take(i as int) =~= figures@.take(i as int));
                assert(ps.last() == patterns@[i as int]);
                assert(fs[i as int] == figures@[i as int]);
                if i == 0 {
                    assert(html_rows(ps, fs) == html_row(ps[0], fs[0]));
                }
                assert(r@ =~= start + html_rows(ps, fs));
            }
            i = i + 1;
        }
        assert(patterns@.take(patterns.len() as int) =~= patterns@);
        assert(figures@.take(figures.len() as int) =~= figures@);
    }
    r.append(PAGE_TAIL);
    r
}

/// One item of the RSS document.
pub open spec fn rss_item(p: Pattern, f: Figures) -> Seq<char> {
    "    <item>\n      <title>"@ + xml_escaped(p.description@)
        + "</title>\n      <description>q="@ + f.q@ + " · effect="@ + f.effect@ + " · corpus="@
        + p.corpus_id@ + " | verify: superstition-verify "@ + p.id@
        + "</description>\n      <pubDate>"@ + p.published_at@
        + "</pubDate>\n      <guid isPermaLink=\"false\">superstition:"@ + p.id@
        + "</guid>\n    </item>"@
}

/// The items of the RSS document, one line apart.
pub open spec fn rss_items(ps: Seq<Pattern>, fs: Seq<Figures>) -> Seq<char>
    decreases ps.len(),
{
    if ps.len() == 0 {
        Seq::empty()
    } else if ps.len() == 1 {
        rss_item(ps[0], fs[0])
    } else {
        rss_items(ps.drop_last(), fs.take(ps.len() - 1)) + "\n"@ + rss_item(
            ps.last(),
            fs[ps.len() - 1],
        )
    }
}

fn push_rss_item(out: &mut String, p: &Pattern, f: &Figures)
    ensures
        final(out)@ == old(out)@ + rss_item(*p, *f),
{
    out.append("    <item>\n      <title>");
    let t = xml_escape(p.description.as_str());
    out.append(t.as_str());
    out.append("</title>\n      <description>q=");
    out.append(f.q.as_str());
    out.append(" · effect=");
    out.append(f.effect.as_str());
    out.append(" · corpus=");
    out.append(p.corpus_id.as_str());
    out.append(" | verify: ");
    let cmd = p.verify_cmd();
    out.append(cmd.as_str());
    out.append("</description>\n      <pubDate>");
    out.append(p.published_at.as_str());
    out.append("</pubDate>\n      <guid isPermaLink=\"false\">superstition:");
    out.append(p.id.as_str());
    out.append("</guid>\n    </item>");
    proof {
        reveal_strlit("superstition-verify ");
        reveal_strlit(" | verify: ");
        reveal_strlit(" | verify: superstition-verify ");
        assert(" | verify: "@ + ("superstition-verify "@ + p.id@) =~= " | verify: superstition-verify "@ + p.id@);
    }
}

/// The feed's RSS 2.0 document: one item per pattern, in feed order.
pub fn render_rss(patterns: &Vec<Pattern>, figures: &Vec<Figures>) -> (r: String)
    requires
        figures.len() == patterns.len(),
    ensures
        r@ == RSS_HEAD@ + rss_items(patterns@, figures@) + RSS_TAIL@,
{
    let mut r = String::from_str(RSS_HEAD);
    let ghost start = r@;
    let mut i: usize = 0;
    assert(rss_items(patterns@.take(0), figures@.take(0)) =~= Seq::<char>::empty());
    while i < patterns.len()
        invariant
            figures.len() == patterns.len(),
            i <= patterns.len(),
            r@ == start + rss_items(patterns@.take(i as int), figures@.take(i as int)),
        decreases patterns.len() - i,
    {
        if i > 0 {
            r.append("\n");
        }
        push_rss_item(&mut r, &patterns[i], &figures[i]);
        proof {
            let ps = patterns@.take(i + 1);
            let fs = figures@.take(i + 1);
            assert(ps.drop_last() =~= patterns@.take(i as int));
            assert(fs.take(i as int) =~= figures@.take(i as int));
            assert(ps.last() == patterns@[i as int]);
            assert(fs[i as int] == figures@[i as int]);
            if i == 0 {
                assert(rss_items(ps, fs) == rss_item(ps[0], fs[0]));
            }
            assert(r@ =~= start + rss_items(ps, fs));
        }
        i = i + 1;
    }
    assert(patterns@.take(patterns.len() as int) =~= patterns@);
    assert(figures@.take(figures.len() as int) =~= figures@);
    r.append(RSS_TAIL);
    r
}

/// The rows of the feed page are the patterns' rows, each pattern with its
/// own figures, in order, one per line: row `i` is made from `ps[i]` and
/// `fs[i]`.
pub proof fn lemma_html_rows_pair_each_pattern_with_its_figures(ps: Seq<Pattern>, fs: Seq<Figures>)
    requires
        fs.len() == ps.len(),
    ensures
        html_rows(ps, fs) == joined(Seq::new(ps.len(), |i: int| html_row(ps[i], fs[i])), "\n"@),
    decreases ps.len(),
{
    let items = Seq::new(ps.len(), |i: int| html_row(ps[i], fs[i]));
    if ps.len() > 1 {
        let n = ps.len() - 1;
        lemma_html_rows_pair_each_pattern_with_its_figures(ps.drop_last(), fs.take(n));
        assert(items.drop_last() =~= Seq::new(
            ps.drop_last().len(),
            |i: int| html_row(ps.drop_last()[i], fs.take(n)[i]),
        ));
    }
}

/// The items of the RSS document are the patterns' items, each pattern with
/// its own figures, in order, one per line: item `i` is made from `ps[i]`
/// and `fs[i]`.
pub proof fn lemma_rss_items_pair_each_pattern_with_its_figures(ps: Seq<Pattern>, fs: Seq<Figures>)
    requires
        fs.len() == ps.len(),
    ensures
        rss_items(ps, fs) == joined(Seq::new(ps.len(), |i: int| rss_item(ps[i], fs[i])), "\n"@),
    decreases ps.len(),
{
    let items = Seq::new(ps.len(), |i: int| rss_item(ps[i], fs[i]));
    if ps.len() > 1 {
        let n = ps.len() - 1;
        lemma_rss_items_pair_each_pattern_with_its_figures(ps.drop_last(), fs.take(n));
        assert(items.drop_last() =~= Seq::new(
            ps.drop_last().len(),
            |i: int| rss_item(ps.drop_last()[i], fs.take(n)[i]),
        ));
    }
}

} // verus!
