//! Web pages of the deployment list: paging, the rows of the list, and
//! where the page actions lead.

use vstd::prelude::*;
use vstd::string::*;
use crate::deploy::manager::{local_time_text, status_label, Deployment, DeploymentStatus};

verus! {

/// Deployments shown on one page of the list.
pub const PAGE_SIZE: u32 = 20;

/// Query parameters for list page
#[derive(Debug, Clone, Copy)]
pub struct ListQuery {
    pub page: Option<u32>,
}

/// The page a query asks for: the first page when it names none or names
/// page zero.
pub open spec fn page_spec(page: Option<u32>) -> u32 {
    match page {
        Some(n) => if n < 1 {
            1
        } else {
            n
        },
        None => 1,
    }
}

impl ListQuery {
    /// The page number, counted from one.
    pub fn page_number(&self) -> (p: u32)
        ensures
            p == page_spec(self.page),
            p >= 1,
    {
        match self.page {
            Some(n) => if n < 1 {
                1
            } else {
                n
            },
            None => 1,
        }
    }
}

/// The deployments on a page of a list, pages counted from one: the run of
/// `size` that starts after the earlier pages, cut at the end of the list.
pub open spec fn page_slice(s: Seq<Deployment>, page: nat, size: nat) -> Seq<Deployment> {
    let start = (page - 1) * size;
    if start >= s.len() {
        Seq::empty()
    } else if start + size >= s.len() {
        s.subrange(start, s.len() as int)
    } else {
        s.subrange(start, start + size)
    }
}

/// The deployments on one page of a list.
pub fn paginate(all: Vec<Deployment>, page: u32, page_size: u32) -> (r: Vec<Deployment>)
    requires
        page >= 1,
    ensures
        r@ == page_slice(all@, page as nat, page_size as nat),
{
    let p: u64 = page as u64 - 1;
    let z: u64 = page_size as u64;
    assert(p * z <= 0xffff_ffff * 0xffff_ffff) by (nonlinear_arith)
        requires
            p <= 0xffff_ffff,
            z <= 0xffff_ffff,
    ;
    let start: u64 = p * z;
    if start >= all.len() as u64 {
        return Vec::new();
    }
    let mut all = all;
    let ghost whole = all@;
    let mut tail = all.split_off(start as usize);
    assert(tail@ == whole.subrange(start as int, whole.len() as int));
    if (page_size as usize) < tail.len() {
        tail.truncate(page_size as usize);
        assert(tail@ =~= whole.subrange(start as int, start + page_size));
    }
    tail
}

/// The links and forms of a row: every deployment can be viewed, a pending
/// one deleted, a failed one retried.
pub open spec fn actions_html(d: Deployment) -> Seq<char> {
    let view = "<a href=\"/deploy/"@ + d.id@ + "\">查看</a>"@;
    match d.status {
        DeploymentStatus::Pending => view
            + "\n                <form method=\"POST\" action=\"/deploy/"@ + d.id@
            + "/delete\" style=\"display:inline;\">\n                    <button type=\"submit\" class=\"btn-delete\">删除</button>\n                </form>"@,
        DeploymentStatus::Failed => view
            + "\n                <form method=\"POST\" action=\"/deploy/"@ + d.id@
            + "/retry\" style=\"display:inline;\">\n                    <button type=\"submit\" class=\"btn-retry\">重试</button>\n                </form>"@,
        _ => view,
    }
}

/// The table row of a deployment: id, project, branch, status, creation
/// time in local time, and actions.
pub open spec fn row_html(d: Deployment) -> Seq<char> {
    "<tr>\n            <td><a href=\"/deploy/"@ + d.id@ + "\">"@ + d.id@
        + "</a></td>\n            <td>"@ + d.project_name@ + "</td>\n            <td>"@
        + d.project.branch@ + "</td>\n            <td><span class=\"status "@ + status_label(
        d.status,
    ) + "\">"@ + status_label(d.status) + "</span></td>\n            <td>"@ + local_time_text(
        d.created_at,
    ) + "</td>\n            <td>"@ + actions_html(d) + "</td>\n        </tr>"@
}

/// The rows of deployments, one after another.
pub open spec fn rows_html(ds: Seq<Deployment>) -> Seq<char>
    decreases ds.len(),
{
    if ds.len() == 0 {
        Seq::empty()
    } else {
        rows_html(ds.drop_last()) + row_html(ds.last())
    }
}

fn actions_string(d: &Deployment) -> (s: String)
    ensures
        s@ == actions_html(*d),
{
    let mut s = String::from_str("<a href=\"/deploy/");
    s.append(d.id.as_str());
    s.append("\">查看</a>");
    let ghost view = s@;
    assert(view =~= "<a href=\"/deploy/"@ + d.id@ + "\">查看</a>"@);
    match d.status {
        DeploymentStatus::Pending => {
            s.append("\n                <form method=\"POST\" action=\"/deploy/");
            s.append(d.id.as_str());
            s.append(
                "/delete\" style=\"display:inline;\">\n                    <button type=\"submit\" class=\"btn-delete\">删除</button>\n                </form>",
            );
        },
        DeploymentStatus::Failed => {
            s.append("\n                <form method=\"POST\" action=\"/deploy/");
            s.append(d.id.as_str());
            s.append(
                "/retry\" style=\"display:inline;\">\n                    <button type=\"submit\" class=\"btn-retry\">重试</button>\n                </form>",
            );
        },
        _ => {},
    }
    s
}

/// The table row of a deployment.
pub fn deployment_row(d: &Deployment) -> (s: String)
    ensures
        s@ == row_html(*d),
{
    let label = d.status.to_string();
    let created = d.created_at_local();
    let actions = actions_string(d);
    let mut s = String::from_str("<tr>\n            <td><a href=\"/deploy/");
    s.append(d.id.as_str());
    s.append("\">");
    s.append(d.id.as_str());
    s.append("</a></td>\n            <td>");
    s.append(d.project_name.as_str());
    s.append("</td>\n            <td>");
    s.append(d.project.branch.as_str());
    s.append("</td>\n            <td><span class=\"status ");
    s.append(label.as_str());
    s.append("\">");
    s.append(label.as_str());
    s.append("</span></td>\n            <td>");
    s.append(created.as_str());
    s.append("</td>\n            <td>");
    s.append(actions.as_str());
    s.append("</td>\n        </tr>");
    s
}

/// API endpoint for infinite scroll: the rows of a page of deployments, as
/// one HTML fragment; empty for an empty page.
pub fn deployments_fragment(deployments: &Vec<Deployment>) -> (s: String)
    ensures
        s@ == rows_html(deployments@),
{
    let mut s = String::new();
    let mut i: usize = 0;
    while i < deployments.len()
        invariant
            i <= deployments@.len(),
            s@ == rows_html(deployments@.take(i as int)),
        decreases deployments@.len() - i,
    {
        let row = deployment_row(&deployments[i]);
        s.append(row.as_str());
        assert(deployments@.take(i + 1).drop_last() =~= deployments@.take(i as int));
        i = i + 1;
    }
    assert(deployments@.take(deployments@.len() as int) =~= deployments@);
    s
}

/// Where deleting a deployment leads: back to the list when it was
/// deleted, to the deployment's page when it was not.
pub fn delete_redirect(id: &str, deleted: bool) -> (s: String)
    ensures
        s@ == (if deleted {
            "/"@
        } else {
            "/deploy/"@ + id@
        }),
{
    if deleted {
        String::from_str("/")
    } else {
        let mut s = String::from_str("/deploy/");
        s.append(id);
        s
    }
}

/// Where retrying a deployment leads: to the deployment's page when it was
/// queued again, back to the list when it was not.
pub fn retry_redirect(id: &str, retried: bool) -> (s: String)
    ensures
        s@ == (if retried {
            "/deploy/"@ + id@
        } else {
            "/"@
        }),
{
    if retried {
        let mut s = String::from_str("/deploy/");
        s.append(id);
        s
    } else {
        String::from_str("/")
    }
}

/// A page holds at most `size` deployments: those of the list that follow
/// the `(page - 1) * size` deployments of the earlier pages, in list order,
/// as many as the list still has up to `size`.
pub proof fn lemma_page_contents(s: Seq<Deployment>, page: nat, size: nat)
    requires
        page >= 1,
    ensures
        page_slice(s, page, size).len() <= size,
        page_slice(s, page, size).len() == (if (page - 1) * size >= s.len() {
            0
        } else if (page - 1) * size + size >= s.len() {
            s.len() - (page - 1) * size
        } else {
            size as int
        }),
        forall|i: int|
            0 <= i < page_slice(s, page, size).len() ==> #[trigger] page_slice(s, page, size)[i]
                == s[(page - 1) * size + i],
{
    assert((page - 1) * size >= 0) by (nonlinear_arith)
        requires
            page >= 1,
    ;
}

/// Consecutive pages do not overlap: page `page + 1` starts exactly where
/// page `page` ends, `size` places further down the list.
pub proof fn lemma_next_page_follows(s: Seq<Deployment>, page: nat, size: nat, i: int)
    requires
        page >= 1,
        0 <= i < page_slice(s, page + 1, size).len(),
    ensures
        page_slice(s, page + 1, size)[i] == s[(page - 1) * size + size + i],
        (page - 1) * size + size + i >= (page - 1) * size + page_slice(s, page, size).len(),
{
    assert(page * size == (page - 1) * size + size) by (nonlinear_arith);
    assert((page - 1) * size >= 0) by (nonlinear_arith)
        requires
            page >= 1,
    ;
    lemma_page_contents(s, page, size);
    lemma_page_contents(s, (page + 1) as nat, size);
}

} // verus!
