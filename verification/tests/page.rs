use superstition::feed::Pattern;
use superstition::page::{render_html, render_rss, Figures, EMPTY_ROW, PAGE_HEAD, PAGE_TAIL, RSS_HEAD, RSS_TAIL};

fn pattern(desc: &str, published_at: &str) -> Pattern {
    Pattern::new_at(
        b"\x00asm", "corpus0123456789", desc.to_string(), "h".to_string(), "temporal-cyclic".to_string(),
        vec![1], 1, "d".to_string(), 0, 0, 0, published_at.to_string(),
    )
}

fn figures(q: &str, e: &str) -> Figures {
    Figures { q: q.to_string(), effect: e.to_string() }
}

#[test]
fn empty_feed_page() {
    let html = render_html(&vec![], &vec![]);
    assert_eq!(html, format!("{PAGE_HEAD}{EMPTY_ROW}{PAGE_TAIL}"));
    assert!(html.starts_with("<!DOCTYPE html>"));
    assert!(html.contains("No significant patterns published yet."));
    assert!(html.ends_with("</html>"));
}

#[test]
fn feed_page_rows() {
    let p = pattern("BTC <up> on Mondays & full moons", "Tue, 1 Jul 2003 10:52:37 +0000");
    let html = render_html(&vec![p.clone(), p.clone()], &vec![figures("1.23e-4", "0.150"), figures("5.00e-2", "0.100")]);
    let row = format!(
        "<tr>\n  <td><span class=\"id\" title=\"{id}\">{short}…</span></td>\n  <td>BTC &lt;up&gt; on Mondays &amp; full moons</td>\n  <td><span class=\"family\">temporal-cyclic</span></td>\n  <td class=\"mono\">1.23e-4</td>\n  <td class=\"mono\">0.150</td>\n  <td class=\"mono verify\">superstition-verify {id}</td>\n</tr>",
        id = p.id,
        short = &p.id[..8]
    );
    assert!(html.starts_with(&format!("{PAGE_HEAD}{row}\n<tr>")));
    assert!(html.contains("<td class=\"mono\">5.00e-2</td>"));
    assert!(html.ends_with(PAGE_TAIL));
}

#[test]
fn feed_rss_items() {
    let p = pattern("Tom's \"effect\"", "Tue, 1 Jul 2003 10:52:37 +0000");
    let rss = render_rss(&vec![p.clone()], &vec![figures("1.00e-3", "0.200")]);
    let item = format!(
        "    <item>\n      <title>Tom&apos;s &quot;effect&quot;</title>\n      <description>q=1.00e-3 · effect=0.200 · corpus=corpus0123456789 | verify: superstition-verify {id}</description>\n      <pubDate>Tue, 1 Jul 2003 10:52:37 +0000</pubDate>\n      <guid isPermaLink=\"false\">superstition:{id}</guid>\n    </item>",
        id = p.id
    );
    assert_eq!(rss, format!("{RSS_HEAD}{item}{RSS_TAIL}"));
    assert_eq!(render_rss(&vec![], &vec![]), format!("{RSS_HEAD}{RSS_TAIL}"));
}
