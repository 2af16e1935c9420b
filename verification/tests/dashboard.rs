use clawbot::dashboard::{
    asset_path, is_authorized, is_inside, is_token, page_window, performance, Page,
};

fn dec(x: f64) -> i64 {
    (x * 100_000_000.0).round() as i64
}

#[test]
fn only_the_bearer_of_the_token_may_read() {
    assert!(is_authorized(Some("Bearer s3cret"), "s3cret"));
    assert!(!is_authorized(Some("Bearer s3cret "), "s3cret"));
    assert!(!is_authorized(Some("bearer s3cret"), "s3cret"));
    assert!(!is_authorized(Some("s3cret"), "s3cret"));
    assert!(!is_authorized(Some("Bearer other"), "s3cret"));
    assert!(!is_authorized(None, "s3cret"));
    assert!(is_authorized(Some("Bearer "), ""));
}

#[test]
fn the_log_stream_wants_the_token_in_the_query() {
    assert!(is_token(Some("s3cret"), "s3cret"));
    assert!(!is_token(Some("S3CRET"), "s3cret"));
    assert!(!is_token(Some(""), "s3cret"));
    assert!(!is_token(None, "s3cret"));
}

#[test]
fn request_paths_name_assets() {
    assert_eq!(asset_path("/"), "index.html");
    assert_eq!(asset_path(""), "index.html");
    assert_eq!(asset_path("///"), "index.html");
    assert_eq!(asset_path("/assets/app.js"), "assets/app.js");
    assert_eq!(asset_path("//assets//app.js"), "assets//app.js");
    assert_eq!(asset_path("favicon.ico"), "favicon.ico");
    assert_eq!(asset_path("/gr\u{fc}n/"), "gr\u{fc}n/");
}

#[test]
fn pages_of_the_trade_history() {
    assert_eq!(page_window(None, None), Page { page: 1, limit: 50, offset: 0 });
    assert_eq!(page_window(Some(3), Some(20)), Page { page: 3, limit: 20, offset: 40 });
    assert_eq!(page_window(Some(0), Some(500)), Page { page: 1, limit: 200, offset: 0 });
    assert_eq!(page_window(Some(-7), Some(200)), Page { page: 1, limit: 200, offset: 0 });
    assert_eq!(page_window(Some(2), Some(-5)), Page { page: 2, limit: -5, offset: -5 });
    assert_eq!(
        page_window(Some(i64::MAX), Some(200)),
        Page { page: i64::MAX, limit: 200, offset: i64::MAX }
    );
}

#[test]
fn performance_without_trades() {
    let p = performance(&[]);
    assert!(p.equity_curve.is_empty());
    assert_eq!(p.win_rate, 0);
    assert_eq!(p.total_pnl_usd, 0);
    assert_eq!(p.trade_count, 0);
    assert_eq!(p.max_drawdown_pct, 0);
}

#[test]
fn performance_of_a_trade_history() {
    let pnls = [dec(500.0), dec(-1050.0), dec(200.0), dec(1000.0), dec(-0.5)];
    let p = performance(&pnls);
    assert_eq!(
        p.equity_curve,
        vec![dec(10_500.0), dec(9450.0), dec(9650.0), dec(10_650.0), dec(10_649.5)]
    );
    assert_eq!(p.win_rate, dec(0.6));
    assert_eq!(p.total_pnl_usd, dec(649.5));
    assert_eq!(p.trade_count, 5);
    // The deepest fall: from 10500 to 9450, a tenth.
    assert_eq!(p.max_drawdown_pct, dec(0.1));
}

#[test]
fn performance_rounds_down() {
    let p = performance(&[1, -1, -1]);
    // One win in three.
    assert_eq!(p.win_rate, 33_333_333);
    assert_eq!(p.total_pnl_usd, -1);
    // A fall of one unit from a peak of ten thousand and one unit.
    assert_eq!(p.equity_curve, vec![dec(10_000.0) + 1, dec(10_000.0), dec(10_000.0) - 1]);
    assert_eq!(p.max_drawdown_pct, 0);
}

#[test]
fn performance_is_total() {
    let p = performance(&[i64::MAX, i64::MAX, i64::MIN, i64::MIN, i64::MIN]);
    assert_eq!(p.trade_count, 5);
    assert_eq!(p.equity_curve[1], i64::MAX);
    assert_eq!(p.equity_curve[4], i64::MIN);
    assert!(p.max_drawdown_pct > dec(1.0));
    assert_eq!(p.win_rate, dec(0.4));
}

#[test]
fn assets_outside_the_folder_are_told_apart() {
    for inside in ["index.html", "assets/app.js", "a/b/c", "", "a//b", "...", "..a/b..", "a/./b"] {
        assert!(is_inside(inside), "{inside:?}");
    }
    for outside in ["..", "../secret", "a/../b", "a/b/..", "a/../../etc/passwd"] {
        assert!(!is_inside(outside), "{outside:?}");
    }
}
