use simplelink::setup::{parse_initial_links, split_text, static_asset_path};
use simplelink::store::{select_dialect, Dialect, Statement};

#[test]
fn initial_links_parse_pairs() {
    let r = parse_initial_links("https://a.com,a;bad;https://b.com,b,extra;;");
    let got: Vec<(String, String)> = r.into_iter().map(|l| (l.url, l.code)).collect();
    assert_eq!(
        got,
        vec![
            ("https://a.com".to_string(), "a".to_string()),
            ("https://b.com".to_string(), "b".to_string())
        ]
    );
    assert!(parse_initial_links("").is_empty());
}

#[test]
fn split_matches_std() {
    for (t, sep) in [("a;b;;c", ';'), ("", ';'), (";", ';'), ("abc", ',')] {
        let want: Vec<String> = t.split(sep).map(|x| x.to_string()).collect();
        assert_eq!(split_text(t, sep), want);
    }
}

#[test]
fn static_paths() {
    assert_eq!(static_asset_path("/"), "index.html");
    assert_eq!(static_asset_path(""), "index.html");
    assert_eq!(static_asset_path("//app.js"), "app.js");
    assert_eq!(static_asset_path("/css/site.css"), "css/site.css");
}

#[test]
fn dialect_from_url() {
    assert!(matches!(select_dialect(&Some("postgres://u@h/db".to_string())), Dialect::Postgres));
    assert!(matches!(select_dialect(&Some("sqlite://x.db".to_string())), Dialect::Sqlite));
    assert!(matches!(select_dialect(&None), Dialect::Sqlite));
}

#[test]
fn statement_text_per_dialect() {
    let st = Statement::FindOwnedLink { link_id: 1, user_id: 2 };
    assert_eq!(st.sql(&Dialect::Postgres), "SELECT id FROM links WHERE id = $1 AND user_id = $2");
    assert_eq!(st.sql(&Dialect::Sqlite), "SELECT id FROM links WHERE id = ?1 AND user_id = ?2");
    let inc = Statement::IncrementClicks { short_code: "abc".to_string() };
    assert_eq!(
        inc.sql(&Dialect::Sqlite),
        "UPDATE links SET clicks = clicks + 1 WHERE short_code = ?1 RETURNING *"
    );
}
