//! The EcoIndex score, the carbon estimate, and the classification of a
//! page's resources.
use vstd::prelude::*;

use crate::text::{contains, ends_with, has_infix, has_suffix, same_text, to_lowercase, unicode_lowercase, ascii_lower};
use vstd::utf8::is_ascii_chars;

use crate::country_data::{factor_of_code, get_emission_factor, CountryFactors};
use crate::heaviest::{heaviest_positions, select_heaviest, sizes_of};
use crate::report::{grade_allows_production, grade_of_score, Grade, Metrics, ResourceInfo, ScanResult};
use crate::text::unicode_uppercase;

verus! {

broadcast use vstd::string::group_string_axioms;

/// `v`, but no more than `cap`.
pub open spec fn capped(v: int, cap: int) -> int {
    if v < cap {
        v
    } else {
        cap
    }
}

/// The weighted load of a page, on a scale where 15 360 000 stands for
/// the worst (weight 1) and 0 for none.
///
/// Each metric is normalised by its reference value and capped at 1: the
/// page weight by 2000 KB (2 048 000 bytes), the requests by 100, the DOM by
/// 1500 nodes; the weights are 40%, 35% and 25%. On the scale of
/// 1/1536 of a hundredth of a point, the three shares are
/// `3 * bytes`, `53760 * requests` and `2560 * nodes`.
pub open spec fn weighted_load(page_size_bytes: int, nb_requests: int, dom_size: int) -> int {
    3 * capped(page_size_bytes, 2048000) + 53760 * capped(nb_requests, 100) + 2560 * capped(
        dom_size,
        1500,
    )
}

/// The exact score `100 - 100 * weighted`, in 1/1536 of a hundredth of a point.
pub open spec fn exact_score_scaled(page_size_bytes: int, nb_requests: int, dom_size: int) -> int {
    15360000 - weighted_load(page_size_bytes, nb_requests, dom_size)
}

/// The EcoIndex score in hundredths of a point: the exact score rounded to
/// two decimals, halves away from zero.
pub open spec fn ecoindex_score(page_size_bytes: int, nb_requests: int, dom_size: int) -> int {
    (2 * exact_score_scaled(page_size_bytes, nb_requests, dom_size) + 1536) / 3072
}

/// EcoIndex score of a page, in hundredths of a point (0 to 10000), from its
/// total weight in bytes, its number of requests and its number of DOM nodes.
pub fn calculate_ecoindex(page_size_bytes: usize, nb_requests: usize, dom_size: usize) -> (score: u32)
    ensures
        score == ecoindex_score(page_size_bytes as int, nb_requests as int, dom_size as int),
        score <= 10000,
{
    let size: u64 = if page_size_bytes < 2048000 {
        page_size_bytes as u64
    } else {
        2048000
    };
    let requests: u64 = if nb_requests < 100 {
        nb_requests as u64
    } else {
        100
    };
    let nodes: u64 = if dom_size < 1500 {
        dom_size as u64
    } else {
        1500
    };
    let load: u64 = 3 * size + 53760 * requests + 2560 * nodes;
    let exact: u64 = 15360000 - load;
    let rounded: u64 = (2 * exact + 1536) / 3072;
    rounded as u32
}

/// Carbon estimate for a transfer of `page_size_bytes` bytes with an
/// emission factor in milligrams of CO2eq per kWh, taking 1 KB to cost
/// 0.000001 kWh: `bytes / 1024 * 1e-6 * factor / 1000` grams, that is
/// `bytes * factor / 1024` nanograms. It is given exactly, in units of
/// 1/1024 of a nanogram: `bytes * factor`.
pub open spec fn carbon_estimate(page_size_bytes: int, emission_factor_mg: int) -> int {
    page_size_bytes * emission_factor_mg
}

/// Estimated carbon footprint, in 1/1024 of a nanogram of CO2eq (so
/// `carbon / 1024` nanograms, `carbon / 1.024e12` grams).
pub fn estimate_carbon(page_size_bytes: usize, emission_factor_mg: u64) -> (carbon: u128)
    ensures
        carbon == carbon_estimate(page_size_bytes as int, emission_factor_mg as int),
{
    let bytes: u128 = page_size_bytes as u128;
    let factor: u128 = emission_factor_mg as u128;
    assert(bytes * factor <= u128::MAX) by (nonlinear_arith)
        requires
            bytes <= u64::MAX,
            factor <= u64::MAX,
    ;
    bytes * factor
}

/// `path` ends with `ext` or holds `ext` followed by a query string.
pub open spec fn has_extension_or_query(path: Seq<char>, ext: Seq<char>) -> bool {
    has_suffix(path, ext) || has_infix(path, ext + seq!['?'])
}

/// The resource type of a URL already in lower case.
pub open spec fn resource_type_of(lower: Seq<char>) -> Seq<char> {
    if has_extension_or_query(lower, ".js"@) {
        "JavaScript"@
    } else if has_extension_or_query(lower, ".css"@) {
        "CSS"@
    } else if has_suffix(lower, ".png"@) || has_suffix(lower, ".jpg"@) || has_suffix(
        lower,
        ".jpeg"@,
    ) || has_suffix(lower, ".gif"@) || has_suffix(lower, ".webp"@) || has_suffix(
        lower,
        ".svg"@,
    ) {
        "Image"@
    } else if has_suffix(lower, ".woff"@) || has_suffix(lower, ".woff2"@) || has_suffix(
        lower,
        ".ttf"@,
    ) || has_suffix(lower, ".eot"@) {
        "Police"@
    } else if has_suffix(lower, ".html"@) || has_suffix(lower, ".htm"@) {
        "HTML"@
    } else {
        "Autre"@
    }
}

/// Resource type of a URL that is already in lower case: "JavaScript",
/// "CSS", "Image", "Police" (fonts), "HTML" or "Autre".
pub fn classify_lowercase_url(lower: &str) -> (t: &'static str)
    ensures
        t@ == resource_type_of(lower@),
{
    proof {
        reveal_strlit("?");
        reveal_strlit(".js?");
        reveal_strlit(".css?");
        reveal_strlit(".js");
        reveal_strlit(".css");
        assert(".js"@ + seq!['?'] == ".js?"@);
        assert(".css"@ + seq!['?'] == ".css?"@);
    }
    if ends_with(lower, ".js") || contains(lower, ".js?") {
        "JavaScript"
    } else if ends_with(lower, ".css") || contains(lower, ".css?") {
        "CSS"
    } else if ends_with(lower, ".png") || ends_with(lower, ".jpg") || ends_with(lower, ".jpeg")
        || ends_with(lower, ".gif") || ends_with(lower, ".webp") || ends_with(lower, ".svg") {
        "Image"
    } else if ends_with(lower, ".woff") || ends_with(lower, ".woff2") || ends_with(lower, ".ttf")
        || ends_with(lower, ".eot") {
        "Police"
    } else if ends_with(lower, ".html") || ends_with(lower, ".htm") {
        "HTML"
    } else {
        "Autre"
    }
}

/// Resource type of a URL, judged on its lower-case form (`str::to_lowercase`).
pub fn get_resource_type(url: &str) -> (t: &'static str)
    ensures
        t@ == resource_type_of(unicode_lowercase(url@)),
        is_ascii_chars(url@) ==> t@ == resource_type_of(ascii_lower(url@)),
{
    let lower = to_lowercase(url);
    classify_lowercase_url(lower.as_str())
}

/// The advice for a resource of this type and size in bytes; a script above
/// 500 KB, a stylesheet above 200 KB, an image above 300 KB get the stronger
/// advice.
pub open spec fn recommendation_for(resource_type: Seq<char>, size_bytes: int) -> Seq<char> {
    if resource_type == "JavaScript"@ {
        if size_bytes > 512000 {
            "Activer la minification et la compression Brotli/Gzip. Envisager le code splitting."@
        } else {
            "Verifier la minification et la mise en cache."@
        }
    } else if resource_type == "CSS"@ {
        if size_bytes > 204800 {
            "Supprimer les regles inutilisees (PurgeCSS) et compresser."@
        } else {
            "Minifier le fichier CSS."@
        }
    } else if resource_type == "Image"@ {
        if size_bytes > 307200 {
            "Convertir en format WebP/AVIF, redimensionner et compresser."@
        } else {
            "Optimiser la compression et utiliser le lazy loading."@
        }
    } else if resource_type == "Police"@ {
        "Utiliser font-display: swap et ne charger que les caracteres necessaires."@
    } else if resource_type == "HTML"@ {
        "Minifier le HTML et activer la compression Gzip."@
    } else {
        "Verifier la necessite de cette ressource."@
    }
}

/// Optimisation advice for a resource, by its type and its size in bytes.
pub fn get_recommendation(resource_type: &str, size_bytes: usize) -> (advice: String)
    ensures
        advice@ == recommendation_for(resource_type@, size_bytes as int),
{
    if same_text(resource_type, "JavaScript") {
        if size_bytes > 512000 {
            "Activer la minification et la compression Brotli/Gzip. Envisager le code splitting.".to_string()
        } else {
            "Verifier la minification et la mise en cache.".to_string()
        }
    } else if same_text(resource_type, "CSS") {
        if size_bytes > 204800 {
            "Supprimer les regles inutilisees (PurgeCSS) et compresser.".to_string()
        } else {
            "Minifier le fichier CSS.".to_string()
        }
    } else if same_text(resource_type, "Image") {
        if size_bytes > 307200 {
            "Convertir en format WebP/AVIF, redimensionner et compresser.".to_string()
        } else {
            "Optimiser la compression et utiliser le lazy loading.".to_string()
        }
    } else if same_text(resource_type, "Police") {
        "Utiliser font-display: swap et ne charger que les caracteres necessaires.".to_string()
    } else if same_text(resource_type, "HTML") {
        "Minifier le HTML et activer la compression Gzip.".to_string()
    } else {
        "Verifier la necessite de cette ressource.".to_string()
    }
}

/// How many of the heaviest resources an audit reports.
pub const HEAVIEST_COUNT: usize = 5;

/// The emission factor of an audit: that of the given country (its code put
/// in upper case), or the world average when no country is given.
pub open spec fn emission_factor_for(factors: CountryFactors, country: Option<String>) -> u64 {
    match country {
        Some(code) => factor_of_code(factors, unicode_uppercase(code@)),
        None => factors.average(),
    }
}

/// `info` describes the resource at `url` of `size_bytes` bytes: its type
/// and the advice for that type and size.
pub open spec fn describes_resource(info: ResourceInfo, url: Seq<char>, size_bytes: usize) -> bool {
    &&& info.url@ == url
    &&& info.size_bytes == size_bytes
    &&& info.resource_type@ == resource_type_of(unicode_lowercase(url))
    &&& info.recommendation@ == recommendation_for(info.resource_type@, size_bytes as int)
}

/// `infos` describes, in order, the resources at the given positions.
pub open spec fn describes_resources(
    infos: Seq<ResourceInfo>,
    resources: Seq<(String, usize)>,
    positions: Seq<usize>,
) -> bool {
    &&& infos.len() == positions.len()
    &&& forall|a: int|
        0 <= a < infos.len() ==> describes_resource(
            #[trigger] infos[a],
            resources[positions[a] as int].0@,
            resources[positions[a] as int].1,
        )
}

/// `r` reports the audit of the page at `url` with these measures, apart
/// from the time of the audit.
pub open spec fn reports_scan(
    r: ScanResult,
    url: Seq<char>,
    country: Option<String>,
    page_size_bytes: usize,
    nb_requests: usize,
    dom_size: usize,
    resources: Seq<(String, usize)>,
    factors: CountryFactors,
) -> bool {
    &&& r.url@ == url
    &&& r.country == country
    &&& r.emission_factor_mg == emission_factor_for(factors, country)
    &&& r.metrics.page_size_bytes == page_size_bytes
    &&& r.metrics.nb_requests == nb_requests
    &&& r.metrics.dom_size == dom_size
    &&& r.metrics.estimated_carbon == carbon_estimate(
        page_size_bytes as int,
        r.emission_factor_mg as int,
    )
    &&& r.ecoindex_score == ecoindex_score(page_size_bytes as int, nb_requests as int, dom_size as int)
    &&& r.grade == grade_of_score(r.ecoindex_score as int)
    &&& r.production_ready == grade_allows_production(r.grade)
    &&& describes_resources(
        r.heaviest_resources@,
        resources,
        heaviest_positions(sizes_of(resources), HEAVIEST_COUNT as int),
    )
}

pub open spec fn is_digit(c: char) -> bool {
    '0' <= c <= '9'
}

/// A year as `%Y` writes it: at least four digits, with a sign before years
/// outside 0 to 9999.
pub open spec fn is_year_text(y: Seq<char>) -> bool {
    let digits = if y.len() > 0 && (y[0] == '+' || y[0] == '-') {
        y.drop_first()
    } else {
        y
    };
    digits.len() >= 4 && forall|i: int| 0 <= i < digits.len() ==> is_digit(#[trigger] digits[i])
}

/// A time written as `%Y-%m-%d %H:%M:%S`: a year, then `-MM-DD HH:MM:SS`
/// with two digits for each field.
pub open spec fn is_local_timestamp(s: Seq<char>) -> bool {
    let n = s.len() as int;
    &&& n >= 19
    &&& is_year_text(s.subrange(0, n - 15))
    &&& s[n - 15] == '-' && is_digit(s[n - 14]) && is_digit(s[n - 13])
    &&& s[n - 12] == '-' && is_digit(s[n - 11]) && is_digit(s[n - 10])
    &&& s[n - 9] == ' ' && is_digit(s[n - 8]) && is_digit(s[n - 7])
    &&& s[n - 6] == ':' && is_digit(s[n - 5]) && is_digit(s[n - 4])
    &&& s[n - 3] == ':' && is_digit(s[n - 2]) && is_digit(s[n - 1])
}

/// Calls `chrono::Local::now` and formats the local time as
/// `%Y-%m-%d %H:%M:%S`. Which time it is depends on the clock and the time
/// zone, so only the form of the text is stated, as chrono documents its
/// format specifiers: the year with at least four digits (and a sign
/// outside 0 to 9999), and two digits for each other field.
#[verifier::external_body]
fn local_timestamp() -> (t: String)
    ensures
        is_local_timestamp(t@),
{
    chrono::Local::now().format("%Y-%m-%d %H:%M:%S").to_string()
}

/// Describes each resource at the given positions, in order.
fn describe_resources(resources: &Vec<(String, usize)>, positions: &Vec<usize>) -> (infos: Vec<ResourceInfo>)
    requires
        forall|a: int| 0 <= a < positions@.len() ==> #[trigger] positions@[a] < resources@.len(),
    ensures
        describes_resources(infos@, resources@, positions@),
{
    let mut infos: Vec<ResourceInfo> = Vec::new();
    let n = positions.len();
    let mut k: usize = 0;
    while k < n
        invariant
            n == positions@.len(),
            k <= n,
            forall|a: int| 0 <= a < positions@.len() ==> #[trigger] positions@[a] < resources@.len(),
            infos@.len() == k,
            forall|a: int|
                0 <= a < k ==> describes_resource(
                    #[trigger] infos@[a],
                    resources@[positions@[a] as int].0@,
                    resources@[positions@[a] as int].1,
                ),
        decreases n - k,
    {
        let p = positions[k];
        let res_url = resources[p].0.clone();
        let size = resources[p].1;
        let res_type = get_resource_type(res_url.as_str());
        let recommendation = get_recommendation(res_type, size);
        infos.push(
            ResourceInfo { url: res_url, size_bytes: size, resource_type: res_type.to_string(), recommendation },
        );
        k = k + 1;
    }
    infos
}

/// The result of an audit made at the given time.
pub fn scan_result_at(
    url: &str,
    country: Option<String>,
    page_size_bytes: usize,
    nb_requests: usize,
    dom_size: usize,
    resources: Vec<(String, usize)>,
    factors: &CountryFactors,
    timestamp: String,
) -> (r: ScanResult)
    ensures
        reports_scan(r, url@, country, page_size_bytes, nb_requests, dom_size, resources@, *factors),
        r.timestamp@ == timestamp@,
{
    let emission_factor = match &country {
        Some(code) => get_emission_factor(factors, code.as_str()),
        None => factors.world_average(),
    };
    let ecoindex_score = calculate_ecoindex(page_size_bytes, nb_requests, dom_size);
    let grade = Grade::from_score(ecoindex_score);
    let estimated_carbon = estimate_carbon(page_size_bytes, emission_factor);
    let production_ready = match grade {
        Grade::A | Grade::B => true,
        _ => false,
    };
    let picked = select_heaviest(&resources, HEAVIEST_COUNT);
    let heaviest_resources = describe_resources(&resources, &picked);
    ScanResult {
        url: url.to_string(),
        country,
        emission_factor_mg: emission_factor,
        metrics: Metrics {
            page_size_bytes,
            nb_requests,
            dom_size,
            estimated_carbon,
        },
        ecoindex_score,
        grade,
        production_ready,
        heaviest_resources,
        timestamp,
    }
}

/// The result of an audit, stamped with the local time: its score and
/// grade, its carbon estimate with the country's emission factor (the world
/// average when no country is given or the country is not known), and its
/// heaviest resources with advice.
pub fn build_scan_result(
    url: &str,
    country: Option<String>,
    page_size_bytes: usize,
    nb_requests: usize,
    dom_size: usize,
    resources: Vec<(String, usize)>,
    factors: &CountryFactors,
) -> (r: ScanResult)
    ensures
        reports_scan(r, url@, country, page_size_bytes, nb_requests, dom_size, resources@, *factors),
        is_local_timestamp(r.timestamp@),
{
    let timestamp = local_timestamp();
    scan_result_at(url, country, page_size_bytes, nb_requests, dom_size, resources, factors, timestamp)
}

} // verus!
