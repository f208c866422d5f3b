//! What holds of the auditor on every input.
use vstd::prelude::*;

use crate::country_data::{factor_of_code, CountryFactors};
use crate::ecoindex::{capped, carbon_estimate, ecoindex_score, emission_factor_for, exact_score_scaled, recommendation_for, reports_scan, resource_type_of};
use crate::heaviest::{heaviest_positions, lemma_heaviest_positions_select, sizes_of};
use crate::report::{Grade, ScanResult};
use crate::heaviest::{comes_before, is_heaviest_selection};
use crate::report::{grade_allows_production, grade_of_score, grade_rank};
use crate::scan::{answered_size, kept_answers, kept_links, resolved_url, selected_links, url_resolution, FetchOutcome};
use crate::text::{ascii_lower, ascii_lower_char, ascii_upper, ascii_upper_char, has_infix, has_prefix, has_suffix};
use vstd::utf8::is_ascii_chars;

verus! {

/// The EcoIndex score lies between 0 and 100 points.
pub proof fn lemma_score_in_range(page_size_bytes: int, nb_requests: int, dom_size: int)
    requires
        page_size_bytes >= 0,
        nb_requests >= 0,
        dom_size >= 0,
    ensures
        0 <= ecoindex_score(page_size_bytes, nb_requests, dom_size) <= 10000,
{
}

/// A page that is heavier, makes more requests or has a larger DOM never
/// scores better.
pub proof fn lemma_score_monotone(
    size1: int,
    requests1: int,
    nodes1: int,
    size2: int,
    requests2: int,
    nodes2: int,
)
    requires
        0 <= size1 <= size2,
        0 <= requests1 <= requests2,
        0 <= nodes1 <= nodes2,
    ensures
        ecoindex_score(size2, requests2, nodes2) <= ecoindex_score(size1, requests1, nodes1),
{
    let e1 = exact_score_scaled(size1, requests1, nodes1);
    let e2 = exact_score_scaled(size2, requests2, nodes2);
    assert(e2 <= e1);
    vstd::arithmetic::div_mod::lemma_div_is_ordered(2 * e2 + 1536, 2 * e1 + 1536, 3072);
}

/// Beyond the reference values (2000 KB, 100 requests, 1500 nodes) a metric
/// weighs no more: the score only depends on the capped metrics.
pub proof fn lemma_score_saturates(page_size_bytes: int, nb_requests: int, dom_size: int)
    ensures
        ecoindex_score(page_size_bytes, nb_requests, dom_size) == ecoindex_score(
            capped(page_size_bytes, 2048000),
            capped(nb_requests, 100),
            capped(dom_size, 1500),
        ),
{
}

/// A page at or beyond every reference value scores 0.
pub proof fn lemma_worst_page_scores_zero(page_size_bytes: int, nb_requests: int, dom_size: int)
    requires
        page_size_bytes >= 2048000,
        nb_requests >= 100,
        dom_size >= 1500,
    ensures
        ecoindex_score(page_size_bytes, nb_requests, dom_size) == 0,
{
}

/// A better score never gets a worse grade.
pub proof fn lemma_grade_monotone(score1: int, score2: int)
    requires
        score1 <= score2,
    ensures
        grade_rank(grade_of_score(score2)) <= grade_rank(grade_of_score(score1)),
{
}

/// Production is allowed exactly from a score of 65 points (grades A and B).
pub proof fn lemma_production_threshold(score: int)
    ensures
        grade_allows_production(grade_of_score(score)) <==> score >= 6500,
{
}

/// The carbon estimate grows with the weight and with the emission factor.
pub proof fn lemma_carbon_monotone(size1: int, factor1: int, size2: int, factor2: int)
    requires
        0 <= size1 <= size2,
        0 <= factor1 <= factor2,
    ensures
        carbon_estimate(size1, factor1) <= carbon_estimate(size2, factor2),
{
    assert(size1 * factor1 <= size2 * factor2) by (nonlinear_arith)
        requires
            0 <= size1 <= size2,
            0 <= factor1 <= factor2,
    ;
}

/// The carbon estimate is proportional to the weight: doubling the
/// transfer doubles it, and sizes add up.
pub proof fn lemma_carbon_additive(size1: int, size2: int, factor: int)
    ensures
        carbon_estimate(size1 + size2, factor) == carbon_estimate(size1, factor) + carbon_estimate(
            size2,
            factor,
        ),
{
    assert((size1 + size2) * factor == size1 * factor + size2 * factor) by (nonlinear_arith);
}

/// Nothing transferred, or a carbon-free mix, costs no carbon.
pub proof fn lemma_carbon_zero(page_size_bytes: int, emission_factor_mg: int)
    requires
        page_size_bytes == 0 || emission_factor_mg == 0,
    ensures
        carbon_estimate(page_size_bytes, emission_factor_mg) == 0,
{
    assert(page_size_bytes * emission_factor_mg == 0) by (nonlinear_arith)
        requires
            page_size_bytes == 0 || emission_factor_mg == 0,
    ;
}

/// A country that is not known gets the world average.
pub proof fn lemma_unknown_country_gets_world_average(factors: CountryFactors, code_upper: Seq<char>)
    requires
        !factors@.contains_key(code_upper),
    ensures
        factor_of_code(factors, code_upper) == factors.average(),
{
}

/// An ASCII country code gets the same factor in lower case as in any other
/// case.
pub proof fn lemma_country_code_case_insensitive(factors: CountryFactors, code: Seq<char>)
    requires
        is_ascii_chars(code),
    ensures
        is_ascii_chars(ascii_lower(code)),
        factor_of_code(factors, ascii_upper(ascii_lower(code))) == factor_of_code(
            factors,
            ascii_upper(code),
        ),
{
    let lower = ascii_lower(code);
    assert forall|i: int| 0 <= i < lower.len() implies '\0' <= #[trigger] lower[i] <= '\u{7f}' by {
        assert(lower[i] == ascii_lower_char(code[i]));
    }
    assert forall|i: int| 0 <= i < code.len() implies #[trigger] ascii_upper(lower)[i] == ascii_upper(
        code,
    )[i] by {
        assert(lower[i] == ascii_lower_char(code[i]));
        assert(ascii_upper(lower)[i] == ascii_upper_char(lower[i]));
        assert(ascii_upper(code)[i] == ascii_upper_char(code[i]));
    }
    assert(ascii_upper(lower) =~= ascii_upper(code));
}

/// The heaviest resources come heaviest first, none left out is heavier
/// than one kept, and as many are kept as asked for when there are enough.
pub proof fn lemma_heaviest_are_heaviest(sizes: Seq<usize>, picked: Seq<usize>, count: int)
    requires
        is_heaviest_selection(sizes, picked, count),
        count >= 0,
    ensures
        picked.len() <= count,
        count <= sizes.len() ==> picked.len() == count,
        forall|a: int, b: int|
            0 <= a < b < picked.len() ==> sizes[picked[a] as int] >= sizes[picked[b] as int],
        forall|a: int, j: int|
            #![trigger sizes[picked[a] as int], sizes[j]]
            0 <= a < picked.len() && 0 <= j < sizes.len() && !picked.contains(j as usize)
                ==> sizes[j] <= sizes[picked[a] as int],
        forall|a: int, b: int| 0 <= a < b < picked.len() ==> picked[a] != picked[b],
{
    assert forall|a: int, b: int| 0 <= a < b < picked.len() implies sizes[picked[a] as int]
        >= sizes[picked[b] as int] && picked[a] != picked[b] by {
        assert(comes_before(sizes, picked[a] as int, picked[b] as int));
    }
    assert forall|a: int, j: int|
        #![trigger sizes[picked[a] as int], sizes[j]]
        0 <= a < picked.len() && 0 <= j < sizes.len() && !picked.contains(j as usize) implies sizes[j]
        <= sizes[picked[a] as int] by {
        assert(comes_before(sizes, picked[a] as int, j));
    }
}

/// An absolute http(s) link is used as it is.
pub proof fn lemma_absolute_links_kept(base: Seq<char>, link: Seq<char>)
    requires
        has_prefix(link, "http://"@) || has_prefix(link, "https://"@),
    ensures
        resolved_url(base, link) == link,
{
}

/// Among kept links with data URIs skipped, none is a data URI.
proof fn lemma_kept_links_no_data_uri(values: Seq<Option<Seq<char>>>)
    ensures
        forall|k: int|
            0 <= k < kept_links(values, true).len() ==> !has_prefix(
                #[trigger] kept_links(values, true)[k],
                "data:"@,
            ),
    decreases values.len(),
{
    if values.len() > 0 {
        let rest = kept_links(values.drop_last(), true);
        lemma_kept_links_no_data_uri(values.drop_last());
        let kept = kept_links(values, true);
        assert forall|k: int| 0 <= k < kept.len() implies !has_prefix(#[trigger] kept[k], "data:"@) by {
            if k < rest.len() {
                assert(kept[k] == rest[k]);
            }
        }
    }
}

/// No image given by a data URI is ever fetched.
pub proof fn lemma_no_data_uri_images(html: Seq<char>)
    ensures
        forall|k: int|
            0 <= k < selected_links(html, "img[src]"@, "src"@, true).len() ==> !has_prefix(
                #[trigger] selected_links(html, "img[src]"@, "src"@, true)[k],
                "data:"@,
            ),
{
    match crate::scan::html_attribute_values(html, "img[src]"@, "src"@) {
        Some(values) => lemma_kept_links_no_data_uri(values),
        None => {},
    }
}

/// Requests that all fail add nothing to an audit, which goes on.
pub proof fn lemma_failed_requests_add_nothing(urls: Seq<String>, outcomes: Seq<FetchOutcome>)
    requires
        forall|k: int| 0 <= k < outcomes.len() ==> #[trigger] outcomes[k] == FetchOutcome::Failed,
    ensures
        kept_answers(urls, outcomes) == Seq::<(String, usize)>::empty(),
    decreases outcomes.len(),
{
    if outcomes.len() > 0 && urls.len() > 0 {
        let o = outcomes.drop_last();
        assert forall|k: int| 0 <= k < o.len() implies #[trigger] o[k] == FetchOutcome::Failed by {
            assert(o[k] == outcomes[k]);
        }
        lemma_failed_requests_add_nothing(urls.drop_last(), o);
        assert(outcomes.last() == outcomes[outcomes.len() - 1]);
    }
}

/// When every request is answered, each counts, in order, with the size of
/// its body on a success and 0 otherwise.
pub proof fn lemma_answered_requests_all_count(urls: Seq<String>, outcomes: Seq<FetchOutcome>)
    requires
        urls.len() == outcomes.len(),
        forall|k: int| 0 <= k < outcomes.len() ==> #[trigger] outcomes[k] is Answered,
    ensures
        kept_answers(urls, outcomes).len() == urls.len(),
        forall|k: int|
            0 <= k < urls.len() ==> #[trigger] kept_answers(urls, outcomes)[k] == (
                urls[k],
                answered_size(outcomes[k]->status, outcomes[k]->body_len),
            ),
    decreases outcomes.len(),
{
    if outcomes.len() > 0 {
        let u = urls.drop_last();
        let o = outcomes.drop_last();
        assert forall|k: int| 0 <= k < o.len() implies #[trigger] o[k] is Answered by {
            assert(o[k] == outcomes[k]);
        }
        lemma_answered_requests_all_count(u, o);
        let n = outcomes.len() - 1;
        assert(outcomes.last() == outcomes[n]);
        assert(outcomes[n] is Answered);
        let rest = kept_answers(u, o);
        assert forall|k: int| 0 <= k < urls.len() implies #[trigger] kept_answers(urls, outcomes)[k] == (
            urls[k],
            answered_size(outcomes[k]->status, outcomes[k]->body_len),
        ) by {
            if k < n {
                assert(rest[k] == (u[k], answered_size(o[k]->status, o[k]->body_len)));
                assert(u[k] == urls[k] && o[k] == outcomes[k]);
            }
        }
    }
}

/// Below the reference values (2000 KB, 100 requests, 1500 nodes) every
/// metric counts in full: the score is
/// `100 - 100 * (0.40 * kb / 2000 + 0.35 * requests / 100 + 0.25 * nodes / 1500)`,
/// rounded to hundredths with halves up. On the scale of 1/1536 of a
/// hundredth that exact score is `15360000 - 3 * bytes - 53760 * requests - 2560 * nodes`.
pub proof fn lemma_score_below_references(page_size_bytes: int, nb_requests: int, dom_size: int)
    requires
        0 <= page_size_bytes < 2048000,
        0 <= nb_requests < 100,
        0 <= dom_size < 1500,
    ensures
        ecoindex_score(page_size_bytes, nb_requests, dom_size) == (2 * (15360000 - 3 * page_size_bytes
            - 53760 * nb_requests - 2560 * dom_size) + 1536) / 3072,
{
}

/// Below its reference value, one more byte, request or node lowers the
/// score by at most 35 hundredths, and never raises it.
pub proof fn lemma_score_step_below_references(
    page_size_bytes: int,
    nb_requests: int,
    dom_size: int,
)
    requires
        0 <= page_size_bytes,
        0 <= nb_requests,
        0 <= dom_size,
        page_size_bytes + 1 < 2048000,
        nb_requests + 1 < 100,
        dom_size + 1 < 1500,
    ensures
        ecoindex_score(page_size_bytes, nb_requests, dom_size) - 35 <= ecoindex_score(
            page_size_bytes + 1,
            nb_requests,
            dom_size,
        ) <= ecoindex_score(page_size_bytes, nb_requests, dom_size),
        ecoindex_score(page_size_bytes, nb_requests, dom_size) - 35 <= ecoindex_score(
            page_size_bytes,
            nb_requests + 1,
            dom_size,
        ) <= ecoindex_score(page_size_bytes, nb_requests, dom_size),
        ecoindex_score(page_size_bytes, nb_requests, dom_size) - 35 <= ecoindex_score(
            page_size_bytes,
            nb_requests,
            dom_size + 1,
        ) <= ecoindex_score(page_size_bytes, nb_requests, dom_size),
{
    lemma_score_below_references(page_size_bytes, nb_requests, dom_size);
    lemma_score_below_references(page_size_bytes + 1, nb_requests, dom_size);
    lemma_score_below_references(page_size_bytes, nb_requests + 1, dom_size);
    lemma_score_below_references(page_size_bytes, nb_requests, dom_size + 1);
}

/// A link that starts with neither `http://` nor `https://` is joined to the
/// page's URL: whenever `Url::parse(base)` and `join(link)` succeed, the
/// joined URL is what the link resolves to.
pub proof fn lemma_other_links_joined(base: Seq<char>, link: Seq<char>, full: Seq<char>)
    requires
        !has_prefix(link, "http://"@),
        !has_prefix(link, "https://"@),
        url_resolution(base, link) == Some(full),
    ensures
        resolved_url(base, link) == full,
{
}

/// A link that starts with neither `http://` nor `https://` and cannot be
/// joined is kept as it is.
pub proof fn lemma_unjoinable_links_kept(base: Seq<char>, link: Seq<char>)
    requires
        !has_prefix(link, "http://"@),
        !has_prefix(link, "https://"@),
        url_resolution(base, link) is None,
    ensures
        resolved_url(base, link) == link,
{
}

/// An answer outside 200..=299 counts for 0 bytes, whatever its body; an
/// answer in that range counts for its body's length.
pub proof fn lemma_answer_sizes(status: u16, body_len: usize)
    ensures
        !(200 <= status <= 299) ==> answered_size(status, body_len) == 0,
        200 <= status <= 299 ==> answered_size(status, body_len) == body_len,
{
}

/// A URL whose lower-case form neither ends with `.js` nor holds `.js?` is
/// not a script; one that ends with `.css` and holds no `.js?` is a
/// stylesheet.
pub proof fn lemma_script_and_stylesheet_urls(lower: Seq<char>)
    ensures
        !has_suffix(lower, ".js"@) && !has_infix(lower, ".js?"@) ==> resource_type_of(lower)
            != "JavaScript"@,
        has_suffix(lower, ".css"@) && !has_infix(lower, ".js?"@) ==> resource_type_of(lower)
            == "CSS"@,
{
    reveal_strlit(".js");
    reveal_strlit(".js?");
    reveal_strlit(".css");
    reveal_strlit("JavaScript");
    reveal_strlit("CSS");
    reveal_strlit("Image");
    reveal_strlit("Police");
    reveal_strlit("HTML");
    reveal_strlit("Autre");
    assert(".js"@ + seq!['?'] =~= ".js?"@);
    assert("CSS"@.len() != "JavaScript"@.len());
    assert("Image"@.len() != "JavaScript"@.len());
    assert("Police"@.len() != "JavaScript"@.len());
    assert("HTML"@.len() != "JavaScript"@.len());
    assert("Autre"@.len() != "JavaScript"@.len());
    if has_suffix(lower, ".css"@) {
        let n = lower.len() as int;
        let t = lower.subrange(n - 4, n);
        assert(t == ".css"@);
        assert(t[1] == 'c');
        assert(lower[n - 3] == t[1]);
        if has_suffix(lower, ".js"@) {
            let u = lower.subrange(n - 3, n);
            assert(u == ".js"@);
            assert(u[0] == '.');
            assert(lower[n - 3] == u[0]);
        }
    }
}

/// Advice by size, with the thresholds in KB (1 KB = 1024 bytes): a script
/// gets the strong advice exactly above 500 KB, a stylesheet above 200 KB,
/// an image above 300 KB.
pub proof fn lemma_advice_thresholds(size_bytes: int)
    ensures
        size_bytes <= 300 * 1024 ==> recommendation_for("Image"@, size_bytes)
            == "Optimiser la compression et utiliser le lazy loading."@,
        size_bytes > 300 * 1024 ==> recommendation_for("Image"@, size_bytes)
            == "Convertir en format WebP/AVIF, redimensionner et compresser."@,
        size_bytes <= 500 * 1024 ==> recommendation_for("JavaScript"@, size_bytes)
            == "Verifier la minification et la mise en cache."@,
        size_bytes > 500 * 1024 ==> recommendation_for("JavaScript"@, size_bytes)
            == "Activer la minification et la compression Brotli/Gzip. Envisager le code splitting."@,
        size_bytes <= 200 * 1024 ==> recommendation_for("CSS"@, size_bytes)
            == "Minifier le fichier CSS."@,
        size_bytes > 200 * 1024 ==> recommendation_for("CSS"@, size_bytes)
            == "Supprimer les regles inutilisees (PurgeCSS) et compresser."@,
{
    reveal_strlit("JavaScript");
    reveal_strlit("CSS");
    reveal_strlit("Image");
    assert("CSS"@.len() != "JavaScript"@.len());
    assert("Image"@.len() != "JavaScript"@.len());
    assert("Image"@.len() != "CSS"@.len());
}

/// The grade scale: A from 80 points, B from 65, C from 50, D from 35,
/// E from 20, F below 20.
pub proof fn lemma_grade_scale(score: int)
    ensures
        grade_of_score(score) == Grade::A <==> score >= 8000,
        grade_of_score(score) == Grade::B <==> 6500 <= score < 8000,
        grade_of_score(score) == Grade::C <==> 5000 <= score < 6500,
        grade_of_score(score) == Grade::D <==> 3500 <= score < 5000,
        grade_of_score(score) == Grade::E <==> 2000 <= score < 3500,
        grade_of_score(score) == Grade::F <==> score < 2000,
{
}

/// The scale of the carbon estimate: `kb` kilobytes at `g` grams of CO2eq
/// per kWh cost `kb * g * 1e-6` grams, that is `kb * g * 1000` nanograms,
/// given in units of 1/1024 of a nanogram.
pub proof fn lemma_carbon_scale(kb: int, g: int)
    ensures
        carbon_estimate(1024 * kb, 1000 * g) == 1024 * (1000 * (kb * g)),
{
    assert((1024 * kb) * (1000 * g) == 1024 * (1000 * (kb * g))) by (nonlinear_arith);
}

/// A country that is known gets its own factor.
pub proof fn lemma_known_country_gets_its_factor(factors: CountryFactors, code_upper: Seq<char>)
    requires
        factors@.contains_key(code_upper),
    ensures
        factor_of_code(factors, code_upper) == factors@[code_upper],
{
}

/// With no country given, the world average applies.
pub proof fn lemma_no_country_world_average(factors: CountryFactors)
    ensures
        emission_factor_for(factors, None) == factors.average(),
{
}

/// An audit reports its five heaviest resources, or all of them when
/// there are fewer, heaviest first, none left out heavier than one kept.
pub proof fn lemma_report_lists_five_heaviest(
    r: ScanResult,
    url: Seq<char>,
    country: Option<String>,
    page_size_bytes: usize,
    nb_requests: usize,
    dom_size: usize,
    resources: Seq<(String, usize)>,
    factors: CountryFactors,
)
    requires
        reports_scan(r, url, country, page_size_bytes, nb_requests, dom_size, resources, factors),
        resources.len() <= usize::MAX,
    ensures
        r.heaviest_resources@.len() == if resources.len() < 5 {
            resources.len() as int
        } else {
            5
        },
        forall|a: int, b: int|
            0 <= a < b < r.heaviest_resources@.len() ==> #[trigger] r.heaviest_resources@[a].size_bytes
                >= #[trigger] r.heaviest_resources@[b].size_bytes,
{
    let sizes = sizes_of(resources);
    lemma_heaviest_positions_select(sizes, 5);
    let p = heaviest_positions(sizes, 5);
    lemma_heaviest_are_heaviest(sizes, p, 5);
    assert forall|a: int, b: int|
        0 <= a < b < r.heaviest_resources@.len() implies #[trigger] r.heaviest_resources@[a].size_bytes
        >= #[trigger] r.heaviest_resources@[b].size_bytes by {
        assert(r.heaviest_resources@[a].size_bytes == resources[p[a] as int].1);
        assert(r.heaviest_resources@[b].size_bytes == resources[p[b] as int].1);
        assert(sizes[p[a] as int] >= sizes[p[b] as int]);
    }
}

/// Images, then fonts, by their extension, for URLs that are not scripts or
/// stylesheets.
pub proof fn lemma_other_resource_types(lower: Seq<char>)
    requires
        !has_suffix(lower, ".js"@),
        !has_infix(lower, ".js?"@),
        !has_suffix(lower, ".css"@),
        !has_infix(lower, ".css?"@),
    ensures
        has_suffix(lower, ".png"@) || has_suffix(lower, ".jpg"@) || has_suffix(lower, ".jpeg"@)
            || has_suffix(lower, ".gif"@) || has_suffix(lower, ".webp"@) || has_suffix(lower, ".svg"@)
            ==> resource_type_of(lower) == "Image"@,
        !(has_suffix(lower, ".png"@) || has_suffix(lower, ".jpg"@) || has_suffix(lower, ".jpeg"@)
            || has_suffix(lower, ".gif"@) || has_suffix(lower, ".webp"@) || has_suffix(lower, ".svg"@))
            && (has_suffix(lower, ".woff"@) || has_suffix(lower, ".woff2"@) || has_suffix(lower, ".ttf"@)
            || has_suffix(lower, ".eot"@)) ==> resource_type_of(lower) == "Police"@,
{
    reveal_strlit(".js?");
    reveal_strlit(".css?");
    reveal_strlit(".js");
    reveal_strlit(".css");
    assert(".js"@ + seq!['?'] =~= ".js?"@);
    assert(".css"@ + seq!['?'] =~= ".css?"@);
}

} // verus!
