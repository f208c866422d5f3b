//! The audit of a live page, without its network I/O: which resources of
//! the page to fetch, and what is kept of each answer.
use vstd::prelude::*;

use crate::country_data::CountryFactors;
use crate::ecoindex::{build_scan_result, reports_scan};
use crate::report::ScanResult;
use crate::text::{has_prefix, starts_with};
use vstd::string::StringSliceAdditionalSpecFns;

verus! {

broadcast use vstd::string::group_string_axioms;

/// The views of a list of strings.
pub open spec fn texts(v: Seq<String>) -> Seq<Seq<char>> {
    v.map_values(|s: String| s@)
}

/// The view of an optional string.
pub open spec fn opt_text(o: Option<String>) -> Option<Seq<char>> {
    match o {
        Some(s) => Some(s@),
        None => None,
    }
}

/// The views of a list of optional strings.
pub open spec fn opt_texts(v: Seq<Option<String>>) -> Seq<Option<Seq<char>>> {
    v.map_values(|o: Option<String>| opt_text(o))
}

/// What `url::Url::parse(base)` followed by `Url::join(relative)` gives,
/// serialised; `None` when either fails.
pub uninterp spec fn url_resolution(base: Seq<char>, relative: Seq<char>) -> Option<Seq<char>>;

/// Parses `base` with `url::Url::parse`, joins `relative` to it with
/// `Url::join` and serialises the result with `to_string`; `None` when the
/// parse or the join fails. Its result is named `url_resolution` of the two
/// strings; nothing more is stated of it.
#[verifier::external_body]
fn join_url(base: &str, relative: &str) -> (r: Option<String>)
    ensures
        opt_text(r) == url_resolution(base@, relative@),
{
    match url::Url::parse(base) {
        Ok(base_url) => match base_url.join(relative) {
            Ok(full) => Some(full.to_string()),
            Err(_) => None,
        },
        Err(_) => None,
    }
}

/// The number of nodes of the tree that `scraper::Html::parse_document`
/// builds from a document.
pub uninterp spec fn html_node_count(html: Seq<char>) -> usize;

/// Parses a document with `scraper::Html::parse_document` and counts the
/// nodes of its tree (`tree.root().descendants().count()`). Its result is
/// named `html_node_count` of the document.
#[verifier::external_body]
fn count_dom_nodes(html: &str) -> (n: usize)
    ensures
        n == html_node_count(html@),
{
    scraper::Html::parse_document(html).tree.root().descendants().count()
}

/// For a document parsed by `scraper::Html::parse_document`, the value of
/// `attribute` on each element that `selector` matches, in the order in
/// which `Html::select` walks the tree's nodes (the order the parser created
/// them); `None` when `scraper::Selector::parse` refuses the selector.
pub uninterp spec fn html_attribute_values(
    html: Seq<char>,
    selector: Seq<char>,
    attribute: Seq<char>,
) -> Option<Seq<Option<Seq<char>>>>;

/// Parses a document with `scraper::Html::parse_document`, a selector with
/// `scraper::Selector::parse`, and gives the value of `attribute` (via
/// `Element::attr`) of each element that `Html::select` yields. Its result
/// is named `html_attribute_values`.
#[verifier::external_body]
fn select_attribute(html: &str, selector: &str, attribute: &str) -> (r: Option<Vec<Option<String>>>)
    ensures
        match r {
            Some(v) => html_attribute_values(html@, selector@, attribute@) == Some(opt_texts(v@)),
            None => html_attribute_values(html@, selector@, attribute@) is None,
        },
{
    let document = scraper::Html::parse_document(html);
    match scraper::Selector::parse(selector) {
        Ok(sel) => Some(
            document.select(&sel).map(|e| e.value().attr(attribute).map(|v| v.to_string())).collect(),
        ),
        Err(_) => None,
    }
}

/// The URL of a resource: `relative` itself when it is an absolute http(s)
/// URL, else `relative` joined to `base`, else `relative` unchanged.
pub open spec fn resolved_url(base: Seq<char>, relative: Seq<char>) -> Seq<char> {
    if has_prefix(relative, "http://"@) || has_prefix(relative, "https://"@) {
        relative
    } else {
        match url_resolution(base, relative) {
            Some(full) => full,
            None => relative,
        }
    }
}

/// Resolves a link of a page against the page's URL.
pub fn resolve_url(base: &str, relative: &str) -> (r: String)
    ensures
        r@ == resolved_url(base@, relative@),
{
    if starts_with(relative, "http://") || starts_with(relative, "https://") {
        return relative.to_string();
    }
    match join_url(base, relative) {
        Some(full) => full,
        None => relative.to_string(),
    }
}

/// The links to follow among attribute values: those that are present and,
/// when `skip_data_uris` holds, do not begin with `data:`.
pub open spec fn kept_links(values: Seq<Option<Seq<char>>>, skip_data_uris: bool) -> Seq<Seq<char>>
    decreases values.len(),
{
    if values.len() == 0 {
        seq![]
    } else {
        let rest = kept_links(values.drop_last(), skip_data_uris);
        match values.last() {
            Some(v) => if skip_data_uris && has_prefix(v, "data:"@) {
                rest
            } else {
                rest.push(v)
            },
            None => rest,
        }
    }
}

/// The links that a selector gives in a document (none when the selector
/// is refused).
pub open spec fn selected_links(
    html: Seq<char>,
    selector: Seq<char>,
    attribute: Seq<char>,
    skip_data_uris: bool,
) -> Seq<Seq<char>> {
    match html_attribute_values(html, selector, attribute) {
        Some(values) => kept_links(values, skip_data_uris),
        None => seq![],
    }
}

/// The links of a page to fetch, unresolved: its stylesheets, then its
/// scripts, then its images other than data URIs.
pub open spec fn page_links(html: Seq<char>) -> Seq<Seq<char>> {
    selected_links(html, "link[rel='stylesheet']"@, "href"@, false) + selected_links(
        html,
        "script[src]"@,
        "src"@,
        false,
    ) + selected_links(html, "img[src]"@, "src"@, true)
}

/// The resolved URLs of a list of links.
pub open spec fn resolved_urls(base: Seq<char>, links: Seq<Seq<char>>) -> Seq<Seq<char>> {
    links.map_values(|l: Seq<char>| resolved_url(base, l))
}

/// Appends to `out` the resolved URL of each kept link among `values`.
fn push_links(
    base: &str,
    values: &Vec<Option<String>>,
    skip_data_uris: bool,
    out: &mut Vec<String>,
)
    ensures
        texts(final(out)@) == texts(old(out)@) + resolved_urls(
            base@,
            kept_links(opt_texts(values@), skip_data_uris),
        ),
{
    let ghost start = texts(out@);
    let n = values.len();
    let mut i: usize = 0;
    while i < n
        invariant
            n == values@.len(),
            i <= n,
            texts(out@) == start + resolved_urls(
                base@,
                kept_links(opt_texts(values@).take(i as int), skip_data_uris),
            ),
        decreases n - i,
    {
        let ghost before = texts(out@);
        proof {
            assert(opt_texts(values@).take(i + 1).drop_last() =~= opt_texts(values@).take(i as int));
            assert(opt_texts(values@).take(i + 1).last() == opt_text(values@[i as int]));
        }
        match &values[i] {
            Some(link) => {
                if skip_data_uris && starts_with(link.as_str(), "data:") {
                } else {
                    let full = resolve_url(base, link.as_str());
                    out.push(full);
                    proof {
                        assert(texts(out@) =~= before.push(full@));
                    }
                }
            },
            None => {},
        }
        proof {
            let kept = kept_links(opt_texts(values@).take(i as int), skip_data_uris);
            let kept2 = kept_links(opt_texts(values@).take(i + 1), skip_data_uris);
            assert(resolved_urls(base@, kept2) =~= if kept2.len() == kept.len() {
                resolved_urls(base@, kept)
            } else {
                resolved_urls(base@, kept).push(resolved_url(base@, kept2.last()))
            });
        }
        i = i + 1;
    }
    proof {
        assert(opt_texts(values@).take(n as int) =~= opt_texts(values@));
    }
}

/// Appends to `out` the resolved URL of each link that `selector` gives.
fn push_selected_links(
    base: &str,
    html: &str,
    selector: &str,
    attribute: &str,
    skip_data_uris: bool,
    out: &mut Vec<String>,
)
    ensures
        texts(final(out)@) == texts(old(out)@) + resolved_urls(
            base@,
            selected_links(html@, selector@, attribute@, skip_data_uris),
        ),
{
    match select_attribute(html, selector, attribute) {
        Some(values) => push_links(base, &values, skip_data_uris, out),
        None => {
            assert(texts(out@) =~= texts(out@) + resolved_urls(base@, seq![]));
        },
    }
}

/// The URLs of the resources of a page to fetch, in order: its stylesheets
/// (`href` of `link[rel='stylesheet']`), its scripts (`src` of
/// `script[src]`), its images (`src` of `img[src]`, data URIs left out),
/// each resolved against the page's URL.
pub fn resources_to_fetch(page_url: &str, html: &str) -> (urls: Vec<String>)
    ensures
        texts(urls@) == resolved_urls(page_url@, page_links(html@)),
{
    let mut urls: Vec<String> = Vec::new();
    push_selected_links(page_url, html, "link[rel='stylesheet']", "href", false, &mut urls);
    push_selected_links(page_url, html, "script[src]", "src", false, &mut urls);
    push_selected_links(page_url, html, "img[src]", "src", true, &mut urls);
    proof {
        let a = selected_links(html@, "link[rel='stylesheet']"@, "href"@, false);
        let b = selected_links(html@, "script[src]"@, "src"@, false);
        let c = selected_links(html@, "img[src]"@, "src"@, true);
        assert(resolved_urls(page_url@, a + b + c) =~= resolved_urls(page_url@, a) + resolved_urls(
            page_url@,
            b,
        ) + resolved_urls(page_url@, c));
        assert(texts(urls@) =~= seq![] + resolved_urls(page_url@, a) + resolved_urls(page_url@, b)
            + resolved_urls(page_url@, c));
    }
    urls
}

/// Why an audit stopped.
#[derive(Debug, Clone, Copy, PartialEq, Eq, Structural)]
pub enum ScanError {
    /// The page answered with this HTTP status, which is not a success.
    HttpStatus(u16),
}

/// An HTTP status in the success class (2xx).
pub open spec fn is_success(status: u16) -> bool {
    200 <= status <= 299
}

/// Whether an HTTP status is a success (200 to 299).
pub fn is_success_status(status: u16) -> (ok: bool)
    ensures
        ok == is_success(status),
{
    200 <= status && status <= 299
}

/// The audit goes on only if the page itself answered with a success.
pub fn check_page_status(status: u16) -> (r: Result<(), ScanError>)
    ensures
        r is Ok <==> is_success(status),
        r is Err ==> r == Err::<(), ScanError>(ScanError::HttpStatus(status)),
{
    if is_success_status(status) {
        Ok(())
    } else {
        Err(ScanError::HttpStatus(status))
    }
}

/// What became of the request for one resource.
#[derive(Debug, Clone, Copy, PartialEq, Eq, Structural)]
pub enum FetchOutcome {
    /// No answer (the request failed).
    Failed,
    /// An answer with this status; `body_len` is the length in bytes of the
    /// body, which is only read on a success.
    Answered { status: u16, body_len: usize },
}

/// The size that an answer counts for: its body on a success, 0 otherwise.
pub open spec fn answered_size(status: u16, body_len: usize) -> usize {
    if is_success(status) {
        body_len
    } else {
        0
    }
}

/// The sum of the sizes of a list of resources.
pub open spec fn sizes_sum(resources: Seq<(String, usize)>) -> int
    decreases resources.len(),
{
    if resources.len() == 0 {
        0
    } else {
        sizes_sum(resources.drop_last()) + resources.last().1
    }
}

/// What a run of requests adds to an audit: for each answered request, in
/// order, its URL and the size it counts for; failed requests add nothing.
pub open spec fn kept_answers(urls: Seq<String>, outcomes: Seq<FetchOutcome>) -> Seq<(String, usize)>
    decreases outcomes.len(),
{
    if outcomes.len() == 0 || urls.len() == 0 {
        seq![]
    } else {
        let rest = kept_answers(urls.drop_last(), outcomes.drop_last());
        match outcomes.last() {
            FetchOutcome::Failed => rest,
            FetchOutcome::Answered { status, body_len } => rest.push(
                (urls.last(), answered_size(status, body_len)),
            ),
        }
    }
}

/// What the first `k + 1` requests add is what the first `k` add, and the
/// answer of request `k` if there is one.
proof fn lemma_kept_answers_step(urls: Seq<String>, outcomes: Seq<FetchOutcome>, k: int)
    requires
        urls.len() == outcomes.len(),
        0 <= k < urls.len(),
    ensures
        kept_answers(urls.take(k + 1), outcomes.take(k + 1)) == match outcomes[k] {
            FetchOutcome::Failed => kept_answers(urls.take(k), outcomes.take(k)),
            FetchOutcome::Answered { status, body_len } => kept_answers(urls.take(k), outcomes.take(k)).push(
                (urls[k], answered_size(status, body_len)),
            ),
        },
{
    assert(urls.take(k + 1).drop_last() =~= urls.take(k));
    assert(outcomes.take(k + 1).drop_last() =~= outcomes.take(k));
    assert(urls.take(k + 1).last() == urls[k]);
    assert(outcomes.take(k + 1).last() == outcomes[k]);
}

/// What the first requests add weighs no more than what all of them add.
proof fn lemma_kept_answers_prefix_sum(
    urls: Seq<String>,
    outcomes: Seq<FetchOutcome>,
    k: int,
    m: int,
)
    requires
        urls.len() == outcomes.len(),
        0 <= k <= m <= urls.len(),
    ensures
        sizes_sum(kept_answers(urls.take(k), outcomes.take(k))) <= sizes_sum(
            kept_answers(urls.take(m), outcomes.take(m)),
        ),
    decreases m - k,
{
    if k < m {
        lemma_kept_answers_prefix_sum(urls, outcomes, k, m - 1);
        lemma_kept_answers_step(urls, outcomes, m - 1);
        let before = kept_answers(urls.take(m - 1), outcomes.take(m - 1));
        match outcomes[m - 1] {
            FetchOutcome::Failed => {},
            FetchOutcome::Answered { status, body_len } => {
                let after = before.push((urls[m - 1], answered_size(status, body_len)));
                assert(after.drop_last() =~= before);
            },
        }
    }
}

/// An audit under way: the page and the resources fetched so far, with
/// their total weight and the number of requests made.
pub struct ScanSession {
    url: String,
    resources: Vec<(String, usize)>,
    total_size_bytes: usize,
    nb_requests: usize,
    dom_size: usize,
}

impl ScanSession {
    #[verifier::type_invariant]
    closed spec fn counts_agree(self) -> bool {
        &&& self.total_size_bytes == sizes_sum(self.resources@)
        &&& self.nb_requests == self.resources@.len()
        &&& self.resources@.len() >= 1
        &&& self.resources@[0].0@ == self.url@
    }

    pub closed spec fn page_url(self) -> Seq<char> {
        self.url@
    }

    /// The page, then each resource that answered, with its size in bytes.
    pub closed spec fn fetched(self) -> Seq<(String, usize)> {
        self.resources@
    }

    pub closed spec fn total(self) -> usize {
        self.total_size_bytes
    }

    pub closed spec fn requests(self) -> usize {
        self.nb_requests
    }

    pub closed spec fn nodes(self) -> usize {
        self.dom_size
    }

    /// What holds of every session: the total weight is the sum of the
    /// sizes of what was fetched, one request was made for each, and the
    /// page comes first.
    pub open spec fn consistent(self) -> bool {
        &&& self.total() == sizes_sum(self.fetched())
        &&& self.requests() == self.fetched().len()
        &&& self.fetched().len() >= 1
        &&& self.fetched()[0].0@ == self.page_url()
    }

    /// Starts the audit of the page at `url` whose HTML is `html`: one
    /// request so far, the page's own weight in bytes, and the size of its
    /// DOM.
    pub fn new(url: &str, html: &str) -> (s: ScanSession)
        ensures
            s.page_url() == url@,
            s.fetched().len() == 1,
            s.fetched()[0].0@ == url@,
            s.fetched()[0].1 == html.len(),
            s.total() == html.len(),
            s.requests() == 1,
            s.nodes() == html_node_count(html@),
            s.consistent(),
    {
        let page_size_bytes = html.len();
        let dom_size = count_dom_nodes(html);
        let mut resources: Vec<(String, usize)> = Vec::new();
        resources.push((url.to_string(), page_size_bytes));
        proof {
            assert(resources@.drop_last() =~= Seq::<(String, usize)>::empty());
            assert(sizes_sum(resources@.drop_last()) == 0);
        }
        ScanSession {
            url: url.to_string(),
            resources,
            total_size_bytes: page_size_bytes,
            nb_requests: 1,
            dom_size,
        }
    }

    /// An empty session, held only while another is being updated.
    fn placeholder() -> (s: ScanSession)
        ensures
            s.page_url() == Seq::<char>::empty(),
            s.fetched().len() == 1,
            s.fetched()[0].0@ == Seq::<char>::empty(),
            s.fetched()[0].1 == 0,
            s.total() == 0,
            s.requests() == 1,
            s.nodes() == 0,
    {
        let mut resources: Vec<(String, usize)> = Vec::new();
        resources.push((String::new(), 0));
        proof {
            assert(resources@.drop_last() =~= Seq::<(String, usize)>::empty());
            assert(sizes_sum(resources@.drop_last()) == 0);
        }
        ScanSession { url: String::new(), resources, total_size_bytes: 0, nb_requests: 1, dom_size: 0 }
    }

    /// The total weight so far, in bytes.
    pub fn total_size_bytes(&self) -> (t: usize)
        ensures
            t == self.total(),
    {
        self.total_size_bytes
    }

    /// The number of nodes of the page's DOM.
    pub fn dom_size(&self) -> (n: usize)
        ensures
            n == self.nodes(),
    {
        self.dom_size
    }

    /// The number of requests so far.
    pub fn nb_requests(&self) -> (n: usize)
        ensures
            n == self.requests(),
    {
        self.nb_requests
    }

    /// Takes note of the outcome of the request for the resource at
    /// `resource_url`: a failed request is left out; an answer is counted as
    /// one more request, of the size of its body on a success and of 0
    /// bytes otherwise.
    pub fn record_fetch(&mut self, resource_url: String, outcome: FetchOutcome)
        requires
            match outcome {
                FetchOutcome::Failed => true,
                FetchOutcome::Answered { status, body_len } => old(self).total() + answered_size(
                    status,
                    body_len,
                ) <= usize::MAX,
            },
        ensures
            final(self).page_url() == old(self).page_url(),
            final(self).nodes() == old(self).nodes(),
            final(self).consistent(),
            match outcome {
                FetchOutcome::Failed => {
                    &&& final(self).fetched() == old(self).fetched()
                    &&& final(self).total() == old(self).total()
                    &&& final(self).requests() == old(self).requests()
                },
                FetchOutcome::Answered { status, body_len } => {
                    &&& final(self).fetched() == old(self).fetched().push(
                        (resource_url, answered_size(status, body_len)),
                    )
                    &&& final(self).total() == old(self).total() + answered_size(status, body_len)
                    &&& final(self).requests() == old(self).requests() + 1
                },
            },
    {
        proof {
            use_type_invariant(&*self);
        }
        match outcome {
            FetchOutcome::Failed => {},
            FetchOutcome::Answered { status, body_len } => {
                let size = if is_success_status(status) {
                    body_len
                } else {
                    0
                };
                let mut placeholder = ScanSession::placeholder();
                std::mem::swap(&mut placeholder, self);
                let ScanSession { url, mut resources, total_size_bytes, nb_requests, dom_size } =
                    placeholder;
                let ghost before = resources@;
                resources.push((resource_url, size));
                proof {
                    assert(resources@.drop_last() =~= before);
                    assert(resources@[0] == before[0]);
                }
                let nb_requests = resources.len();
                *self = ScanSession {
                    url,
                    nb_requests,
                    resources,
                    total_size_bytes: total_size_bytes + size,
                    dom_size,
                };
            },
        }
        proof {
            use_type_invariant(&*self);
        }
    }

    /// Takes note, in order, of the outcome of the request for each URL:
    /// whatever the resources answered, the audit goes on, with the answered
    /// ones added as `kept_answers` says.
    pub fn record_all(&mut self, urls: Vec<String>, outcomes: Vec<FetchOutcome>)
        requires
            urls@.len() == outcomes@.len(),
            old(self).total() + sizes_sum(kept_answers(urls@, outcomes@)) <= usize::MAX,
        ensures
            final(self).page_url() == old(self).page_url(),
            final(self).nodes() == old(self).nodes(),
            final(self).consistent(),
            final(self).fetched() == old(self).fetched() + kept_answers(urls@, outcomes@),
            final(self).total() == old(self).total() + sizes_sum(kept_answers(urls@, outcomes@)),
            final(self).requests() == old(self).requests() + kept_answers(urls@, outcomes@).len(),
    {
        proof {
            use_type_invariant(&*self);
        }
        let n = urls.len();
        let mut k: usize = 0;
        proof {
            assert(urls@.take(0) =~= Seq::<String>::empty());
            assert(outcomes@.take(0) =~= Seq::<FetchOutcome>::empty());
            assert(old(self).fetched() + kept_answers(urls@.take(0), outcomes@.take(0)) =~= old(self).fetched());
            assert(urls@.take(n as int) =~= urls@);
            assert(outcomes@.take(n as int) =~= outcomes@);
        }
        while k < n
            invariant
                n == urls@.len(),
                n == outcomes@.len(),
                k <= n,
                urls@.take(n as int) == urls@,
                outcomes@.take(n as int) == outcomes@,
                old(self).total() + sizes_sum(kept_answers(urls@, outcomes@)) <= usize::MAX,
                self.page_url() == old(self).page_url(),
                self.nodes() == old(self).nodes(),
                self.consistent(),
                self.fetched() == old(self).fetched() + kept_answers(urls@.take(k as int), outcomes@.take(k as int)),
                self.total() == old(self).total() + sizes_sum(kept_answers(urls@.take(k as int), outcomes@.take(k as int))),
                self.requests() == old(self).requests() + kept_answers(urls@.take(k as int), outcomes@.take(k as int)).len(),
            decreases n - k,
        {
            proof {
                lemma_kept_answers_step(urls@, outcomes@, k as int);
                lemma_kept_answers_prefix_sum(urls@, outcomes@, k + 1, n as int);
                let a = kept_answers(urls@.take(k as int), outcomes@.take(k as int));
                match outcomes@[k as int] {
                    FetchOutcome::Failed => {},
                    FetchOutcome::Answered { status, body_len } => {
                        let b = a.push((urls@[k as int], answered_size(status, body_len)));
                        assert(b.drop_last() =~= a);
                    },
                }
            }
            let ghost before = self.fetched();
            let url = urls[k].clone();
            self.record_fetch(url, outcomes[k]);
            proof {
                let a = kept_answers(urls@.take(k as int), outcomes@.take(k as int));
                match outcomes@[k as int] {
                    FetchOutcome::Failed => {},
                    FetchOutcome::Answered { status, body_len } => {
                        assert(self.fetched() =~= old(self).fetched() + a.push(
                            (urls@[k as int], answered_size(status, body_len)),
                        ));
                    },
                }
            }
            k = k + 1;
        }
    }

    /// Ends the audit: the result for the page, its resources and the
    /// country's energy mix, stamped with the local time.
    pub fn finish(self, country: Option<String>, factors: &CountryFactors) -> (r: ScanResult)
        ensures
            self.consistent(),
            reports_scan(
                r,
                self.page_url(),
                country,
                self.total(),
                self.requests(),
                self.nodes(),
                self.fetched(),
                *factors,
            ),
            crate::ecoindex::is_local_timestamp(r.timestamp@),
    {
        proof {
            use_type_invariant(&self);
        }
        let ScanSession { url, resources, total_size_bytes, nb_requests, dom_size } = self;
        build_scan_result(url.as_str(), country, total_size_bytes, nb_requests, dom_size, resources, factors)
    }
}

} // verus!
