//! The control plane's view of its nodes: where to poll each one, and the dashboard page.
use vstd::prelude::*;
use vstd::utf8;

verus! {

/// The page text before the table rows.
pub const DASHBOARD_TOP: &'static str = "<html>\n        <head>\n\n        <title>Orpheus Control Plane</title>\n\n        <meta http-equiv='refresh' content='3'>\n\n        <style>\n\n        body {\n            font-family: Arial;\n            background:#0f172a;\n            color:white;\n            padding:40px;\n        }\n\n        table {\n            border-collapse: collapse;\n            width:100%;\n        }\n\n        th, td {\n            padding:12px;\n            border:1px solid #334155;\n        }\n\n        th {\n            background:#1e293b;\n        }\n\n        .online {\n            color:#22c55e;\n            font-weight:bold;\n        }\n\n        .offline {\n            color:#ef4444;\n            font-weight:bold;\n        }\n\n        </style>\n\n        </head>\n\n        <body>\n\n        <h1>Orpheus Control Plane</h1>\n\n        <table>\n\n        <tr>\n            <th>Node</th>\n            <th>Chain Head</th>\n            <th>Status</th>\n        </tr>\n\n        ";

/// The page text after the table rows.
pub const DASHBOARD_BOTTOM: &'static str = "\n\n        </table>\n\n        </body>\n        </html>";

/// Where a node's audit chain head is read from.
pub open spec fn chain_head_url_of(node: Seq<char>) -> Seq<char> {
    node + "/audit/chain-head"@
}

/// The URL the control plane polls for a node's chain head.
pub fn chain_head_url(node: &str) -> (url: String)
    ensures
        url@ == chain_head_url_of(node@),
        url@ == node@ + "/audit/chain-head"@,
{
    let mut url = node.to_owned();
    url.append("/audit/chain-head");
    url
}

/// The style class of a status cell: "online" for the status "ONLINE", else "offline".
pub open spec fn status_class(status: Seq<char>) -> Seq<char> {
    if status == "ONLINE"@ {
        "online"@
    } else {
        "offline"@
    }
}

/// Whether a chain head can be shown by its first twelve bytes (they end on a character
/// boundary).
pub open spec fn head_shortenable(head: Seq<char>) -> bool {
    utf8::is_char_boundary(utf8::encode_utf8(head), 12)
}

/// The characters of a chain head's first twelve bytes.
pub open spec fn head_prefix(head: Seq<char>) -> Seq<char> {
    utf8::decode_utf8(utf8::encode_utf8(head).subrange(0, 12))
}

/// One table row of the dashboard: node, shortened chain head, and status with its class.
pub open spec fn row_html(node: Seq<char>, head: Seq<char>, status: Seq<char>) -> Seq<char> {
    "<tr>\n                <td>"@ + node + "</td>\n                <td>"@ + head_prefix(head)
        + "</td>\n                <td class=\""@ + status_class(status) + "\">"@ + status
        + "</td>\n            </tr>"@
}

/// The table rows for (node, chain head, status) triples, in order.
pub open spec fn rows_html(rows: Seq<(String, String, String)>) -> Seq<char>
    decreases rows.len(),
{
    if rows.len() == 0 {
        Seq::empty()
    } else {
        rows_html(rows.drop_last()) + row_html(rows.last().0@, rows.last().1@, rows.last().2@)
    }
}

/// The rows of a joined list of nodes are the rows of its parts, joined: no row is dropped,
/// repeated or reordered.
pub proof fn lemma_rows_html_concat(
    first: Seq<(String, String, String)>,
    second: Seq<(String, String, String)>,
)
    ensures
        rows_html(first + second) == rows_html(first) + rows_html(second),
    decreases second.len(),
{
    if second.len() == 0 {
        assert(first + second =~= first);
        assert(rows_html(first) + rows_html(second) =~= rows_html(first));
    } else {
        lemma_rows_html_concat(first, second.drop_last());
        assert((first + second).drop_last() =~= first + second.drop_last());
        assert((first + second).last() == second.last());
    }
}

/// A single node's row shows its id, the characters of its chain head's first twelve bytes, and
/// its status with the class "online" exactly when the status is "ONLINE".
pub proof fn lemma_rows_html_single(row: (String, String, String))
    ensures
        rows_html(seq![row]) == "<tr>\n                <td>"@ + row.0@ + "</td>\n                <td>"@
            + utf8::decode_utf8(utf8::encode_utf8(row.1@).subrange(0, 12))
            + "</td>\n                <td class=\""@ + (if row.2@ == "ONLINE"@ {
            "online"@
        } else {
            "offline"@
        }) + "\">"@ + row.2@ + "</td>\n            </tr>"@,
        rows_html(Seq::<(String, String, String)>::empty()) == Seq::<char>::empty(),
{
    let none = Seq::<(String, String, String)>::empty();
    assert(rows_html(none) == Seq::<char>::empty());
    assert(seq![row].drop_last() =~= none);
    assert(seq![row].last() == row);
    assert(rows_html(seq![row]) == rows_html(none) + row_html(row.0@, row.1@, row.2@));
    assert(Seq::<char>::empty() + row_html(row.0@, row.1@, row.2@) =~= row_html(row.0@, row.1@, row.2@));
}

/// The whole dashboard page.
pub open spec fn dashboard_page(rows: Seq<(String, String, String)>) -> Seq<char> {
    DASHBOARD_TOP@ + rows_html(rows) + DASHBOARD_BOTTOM@
}

/// Renders the dashboard for the nodes' (node id, chain head, status) triples.
pub fn render_dashboard(rows: &Vec<(String, String, String)>) -> (page: String)
    requires
        forall|i: int| 0 <= i < rows@.len() ==> head_shortenable((#[trigger] rows@[i]).1@),
    ensures
        page@ == dashboard_page(rows@),
        page@ == DASHBOARD_TOP@ + rows_html(rows@) + DASHBOARD_BOTTOM@,
{
    let mut html_rows = String::new();
    let n = rows.len();
    let mut i: usize = 0;
    while i < n
        invariant
            n == rows@.len(),
            i <= n,
            forall|k: int| 0 <= k < rows@.len() ==> head_shortenable((#[trigger] rows@[k]).1@),
            html_rows@ == rows_html(rows@.subrange(0, i as int)),
        decreases n - i,
    {
        let node = &rows[i].0;
        let head = &rows[i].1;
        let status = &rows[i].2;
        proof {
            assert(head_shortenable(rows@[i as int].1@));
            broadcast use utf8::encode_utf8_decode_utf8;
        }
        let (short_head, _) = head.as_str().split_at(12);
        let online = "ONLINE".to_owned();
        let class = if *status == online {
            "online"
        } else {
            "offline"
        };
        html_rows.append("<tr>\n                <td>");
        html_rows.append(node.as_str());
        html_rows.append("</td>\n                <td>");
        html_rows.append(short_head);
        html_rows.append("</td>\n                <td class=\"");
        html_rows.append(class);
        html_rows.append("\">");
        html_rows.append(status.as_str());
        html_rows.append("</td>\n            </tr>");
        proof {
            let prefix = rows@.subrange(0, i as int + 1);
            assert(prefix.drop_last() =~= rows@.subrange(0, i as int));
            assert(prefix.last() == rows@[i as int]);
        }
        i = i + 1;
    }
    proof {
        assert(rows@.subrange(0, n as int) =~= rows@);
    }
    let mut page = DASHBOARD_TOP.to_owned();
    page.append(html_rows.as_str());
    page.append(DASHBOARD_BOTTOM);
    page
}

} // verus!
