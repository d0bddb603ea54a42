use simplelink::analytics::{daily_clicks, top_sources};
use simplelink::text::text_less;

fn s(x: &str) -> String {
    x.to_string()
}

#[test]
fn daily_clicks_groups_and_orders_by_date() {
    let dates = vec![s("2024-01-03"), s("2024-01-01"), s("2024-01-03"), s("2024-01-02"), s("2024-01-03")];
    let r = daily_clicks(&dates);
    let got: Vec<(String, i64)> = r.into_iter().map(|c| (c.date, c.clicks)).collect();
    assert_eq!(got, vec![(s("2024-01-01"), 1), (s("2024-01-02"), 1), (s("2024-01-03"), 3)]);
}

#[test]
fn daily_clicks_empty() {
    assert!(daily_clicks(&vec![]).is_empty());
}

#[test]
fn daily_clicks_keeps_earliest_thirty_dates() {
    let mut dates = Vec::new();
    for d in (1..=40).rev() {
        dates.push(format!("2024-02-{:02}", d % 29 + 1));
        dates.push(format!("2023-12-{:02}", d % 31 + 1));
    }
    let r = daily_clicks(&dates);
    assert_eq!(r.len(), 30);
    assert_eq!(r[0].date, "2023-12-01");
    assert_eq!(r[29].date, "2023-12-30");
    for w in r.windows(2) {
        assert!(w[0].date < w[1].date);
    }
}

#[test]
fn top_sources_skips_absent_and_empty_tags() {
    let rows = vec![None, Some(s("")), Some(s("tw")), None, Some(s("tw")), Some(s("fb"))];
    let r = top_sources(&rows);
    let got: Vec<(String, i64)> = r.into_iter().map(|x| (x.source, x.count)).collect();
    assert_eq!(got, vec![(s("tw"), 2), (s("fb"), 1)]);
}

#[test]
fn top_sources_at_most_ten_by_count_then_name() {
    let mut rows = Vec::new();
    for i in 0..12 {
        for _ in 0..(i % 4 + 1) {
            rows.push(Some(format!("src{:02}", i)));
        }
    }
    let r = top_sources(&rows);
    assert_eq!(r.len(), 10);
    assert_eq!((r[0].source.as_str(), r[0].count), ("src03", 4));
    assert_eq!((r[1].source.as_str(), r[1].count), ("src07", 4));
    assert_eq!((r[2].source.as_str(), r[2].count), ("src11", 4));
    assert_eq!((r[3].source.as_str(), r[3].count), ("src02", 3));
    for w in r.windows(2) {
        assert!(w[0].count > w[1].count || (w[0].count == w[1].count && w[0].source < w[1].source));
    }
    assert!(r.iter().all(|x| !x.source.is_empty()));
}

#[test]
fn top_sources_of_no_tags_is_empty() {
    assert!(top_sources(&vec![None, Some(s(""))]).is_empty());
}

#[test]
fn text_order_is_lexicographic_by_code_point() {
    assert!(text_less("2024-01-09", "2024-01-10"));
    assert!(text_less("ab", "abc"));
    assert!(!text_less("abc", "ab"));
    assert!(!text_less("same", "same"));
    assert!(text_less("Z", "a"));
    assert!(text_less("", "a"));
}
