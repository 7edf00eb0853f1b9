use orpheus::control::{chain_head_url, render_dashboard, DASHBOARD_BOTTOM, DASHBOARD_TOP};
use orpheus::heartbeat::{AgentConfig, AgentIdentity};

#[test]
fn chain_head_url_appends_route() {
    assert_eq!(chain_head_url("http://127.0.0.1:8080"), "http://127.0.0.1:8080/audit/chain-head");
}

#[test]
fn dashboard_rows_show_short_head_and_status_class() {
    let rows = vec![
        ("node-a".to_string(), "d7f627adad05d169fc48c9a8".to_string(), "ONLINE".to_string()),
        ("node-b".to_string(), "6ff8309fb1488344".to_string(), "OFFLINE".to_string()),
    ];
    let page = render_dashboard(&rows);
    let expected_rows = "<tr>\n                <td>node-a</td>\n                <td>d7f627adad05</td>\n                <td class=\"online\">ONLINE</td>\n            </tr><tr>\n                <td>node-b</td>\n                <td>6ff8309fb148</td>\n                <td class=\"offline\">OFFLINE</td>\n            </tr>";
    assert_eq!(page, format!("{}{}{}", DASHBOARD_TOP, expected_rows, DASHBOARD_BOTTOM));
    assert!(page.starts_with("<html>\n        <head>"));
    assert!(page.ends_with("</body>\n        </html>"));
}

#[test]
fn dashboard_status_class_is_case_sensitive() {
    let rows = vec![("n".to_string(), "123456789012".to_string(), "online".to_string())];
    let page = render_dashboard(&rows);
    assert!(page.contains("<td class=\"offline\">online</td>"));
}

#[test]
fn empty_dashboard_has_no_rows() {
    let page = render_dashboard(&Vec::new());
    assert_eq!(page, format!("{}{}", DASHBOARD_TOP, DASHBOARD_BOTTOM));
}

#[test]
fn uptime_counts_whole_seconds() {
    let identity = AgentIdentity {
        node_name: "n".to_string(),
        version: "0.1".to_string(),
        started_at: 1_700_000_000_000_000_000,
    };
    let config = AgentConfig { interval_seconds: 10 };
    assert_eq!(config.interval_seconds, 10);
    assert_eq!(identity.uptime_seconds(1_700_000_000_000_000_000), 0);
    assert_eq!(identity.uptime_seconds(1_700_000_005_999_999_999), 5);
    assert_eq!(identity.uptime_seconds(1_700_000_006_000_000_000), 6);
}
