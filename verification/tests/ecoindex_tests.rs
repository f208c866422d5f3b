use zitro::country_data::{get_emission_factor, CountryFactors};
use zitro::ecoindex::{
    build_scan_result, calculate_ecoindex, classify_lowercase_url, estimate_carbon,
    get_recommendation, get_resource_type, scan_result_at,
};
use zitro::heaviest::select_heaviest;
use zitro::report::Grade;

#[test]
fn empty_page_scores_full_marks() {
    assert_eq!(calculate_ecoindex(0, 0, 0), 10000);
}

#[test]
fn page_at_every_reference_scores_zero() {
    assert_eq!(calculate_ecoindex(2_048_000, 100, 1500), 0);
    assert_eq!(calculate_ecoindex(10_000_000, 1000, 100_000), 0);
}

#[test]
fn half_loaded_page_scores_fifty() {
    // 1000 KB, 50 requests, 750 nodes: every metric at half its reference.
    assert_eq!(calculate_ecoindex(1_024_000, 50, 750), 5000);
}

#[test]
fn score_rounds_to_hundredths() {
    // One request costs 0.35 point.
    assert_eq!(calculate_ecoindex(0, 1, 0), 9965);
    // One node costs 0.01666... point: 99.98333 rounds to 99.98.
    assert_eq!(calculate_ecoindex(0, 0, 1), 9998);
    // One byte costs a negligible share: 99.99998 rounds to 100.
    assert_eq!(calculate_ecoindex(1, 0, 0), 10000);
    // 100 KB: 0.40 * 0.05 = 0.02, so 98.00.
    assert_eq!(calculate_ecoindex(102_400, 0, 0), 9800);
}

#[test]
fn score_is_monotone_in_each_metric() {
    let base = calculate_ecoindex(300_000, 20, 400);
    assert!(calculate_ecoindex(600_000, 20, 400) <= base);
    assert!(calculate_ecoindex(300_000, 40, 400) <= base);
    assert!(calculate_ecoindex(300_000, 20, 800) <= base);
}

#[test]
fn carbon_estimate_exact_values() {
    // Units of 1/1024 ng. 1000 KB at 475 g/kWh: 0.001 kWh, so 0.475 g.
    assert_eq!(estimate_carbon(1_024_000, 475_000), 475_000_000 * 1024);
    // 1 KB at 56 g/kWh: 0.000056 g = 56 000 ng.
    assert_eq!(estimate_carbon(1024, 56_000), 56_000 * 1024);
    // 1000 bytes at 56 g/kWh: 5.46875e-5 g = 54 687.5 ng, kept exactly.
    assert_eq!(estimate_carbon(1000, 56_000), 56_000_000);
    assert_eq!(estimate_carbon(1000, 56_000) as f64 / 1_024_000_000_000.0, 5.46875e-5);
    assert_eq!(estimate_carbon(0, 400_000), 0);
    assert_eq!(estimate_carbon(5000, 0), 0);
    assert_eq!(estimate_carbon(1, 1), 1);
}

#[test]
fn carbon_is_monotone() {
    assert!(estimate_carbon(2048, 400_000) <= estimate_carbon(4096, 400_000));
    assert!(estimate_carbon(2048, 56_000) <= estimate_carbon(2048, 400_000));
}

#[test]
fn resource_types() {
    assert_eq!(get_resource_type("https://example.com/app.js"), "JavaScript");
    assert_eq!(get_resource_type("https://example.com/APP.JS"), "JavaScript");
    assert_eq!(get_resource_type("https://example.com/app.js?v=3"), "JavaScript");
    assert_eq!(get_resource_type("/style.css"), "CSS");
    assert_eq!(get_resource_type("/style.CSS?x=1"), "CSS");
    assert_eq!(get_resource_type("/a.png"), "Image");
    assert_eq!(get_resource_type("/a.JPG"), "Image");
    assert_eq!(get_resource_type("/a.jpeg"), "Image");
    assert_eq!(get_resource_type("/a.gif"), "Image");
    assert_eq!(get_resource_type("/a.webp"), "Image");
    assert_eq!(get_resource_type("/a.svg"), "Image");
    assert_eq!(get_resource_type("/f.woff"), "Police");
    assert_eq!(get_resource_type("/f.woff2"), "Police");
    assert_eq!(get_resource_type("/f.ttf"), "Police");
    assert_eq!(get_resource_type("/f.eot"), "Police");
    assert_eq!(get_resource_type("/index.html"), "HTML");
    assert_eq!(get_resource_type("/index.HTM"), "HTML");
    assert_eq!(get_resource_type("https://example.com/"), "Autre");
    assert_eq!(get_resource_type("/data.json"), "Autre");
    assert_eq!(get_resource_type("/img.png?size=2"), "Autre");
}

#[test]
fn classification_of_lower_case_urls() {
    assert_eq!(classify_lowercase_url("x.js"), "JavaScript");
    // Already lower case is required: upper-case extensions are not seen here.
    assert_eq!(classify_lowercase_url("x.JS"), "Autre");
    assert_eq!(classify_lowercase_url("x.css?v"), "CSS");
}

#[test]
fn recommendations() {
    assert_eq!(
        get_recommendation("JavaScript", 512_001),
        "Activer la minification et la compression Brotli/Gzip. Envisager le code splitting."
    );
    assert_eq!(
        get_recommendation("JavaScript", 512_000),
        "Verifier la minification et la mise en cache."
    );
    assert_eq!(
        get_recommendation("CSS", 204_801),
        "Supprimer les regles inutilisees (PurgeCSS) et compresser."
    );
    assert_eq!(get_recommendation("CSS", 204_800), "Minifier le fichier CSS.");
    assert_eq!(
        get_recommendation("Image", 307_201),
        "Convertir en format WebP/AVIF, redimensionner et compresser."
    );
    assert_eq!(
        get_recommendation("Image", 10),
        "Optimiser la compression et utiliser le lazy loading."
    );
    assert_eq!(
        get_recommendation("Police", 10_000_000),
        "Utiliser font-display: swap et ne charger que les caracteres necessaires."
    );
    assert_eq!(
        get_recommendation("HTML", 0),
        "Minifier le HTML et activer la compression Gzip."
    );
    assert_eq!(
        get_recommendation("Autre", 0),
        "Verifier la necessite de cette ressource."
    );
    assert_eq!(
        get_recommendation("javascript", 900_000),
        "Verifier la necessite de cette ressource."
    );
}

fn sample_factors() -> CountryFactors {
    let mut f = CountryFactors::new(475_000);
    f.insert("TG".to_string(), 400_000);
    f.insert("CI".to_string(), 350_000);
    f.insert("SN".to_string(), 450_000);
    f.insert("FR".to_string(), 56_000);
    f.insert("US".to_string(), 380_000);
    f
}

#[test]
fn emission_factors_by_country() {
    let f = sample_factors();
    assert_eq!(get_emission_factor(&f, "TG"), 400_000);
    assert_eq!(get_emission_factor(&f, "fr"), 56_000);
    assert_eq!(get_emission_factor(&f, "Us"), 380_000);
    assert_eq!(get_emission_factor(&f, "XX"), 475_000);
    assert_eq!(get_emission_factor(&f, ""), 475_000);
    assert_eq!(f.world_average(), 475_000);
    assert_eq!(f.factor_for("FR"), Some(56_000));
    assert_eq!(f.factor_for("fr"), None);
}

#[test]
fn insert_replaces_a_country() {
    let mut f = sample_factors();
    f.insert("FR".to_string(), 60_000);
    assert_eq!(get_emission_factor(&f, "fr"), 60_000);
    assert_eq!(get_emission_factor(&f, "TG"), 400_000);
}

#[test]
fn heaviest_keep_order_on_ties() {
    let resources = vec![
        ("a".to_string(), 10),
        ("b".to_string(), 30),
        ("c".to_string(), 10),
        ("d".to_string(), 30),
        ("e".to_string(), 5),
        ("f".to_string(), 20),
        ("g".to_string(), 1),
    ];
    assert_eq!(select_heaviest(&resources, 5), vec![1, 3, 5, 0, 2]);
    assert_eq!(select_heaviest(&resources, 0), Vec::<usize>::new());
    assert_eq!(select_heaviest(&resources, 10), vec![1, 3, 5, 0, 2, 4, 6]);
}

#[test]
fn scan_result_fields() {
    let f = sample_factors();
    let resources = vec![
        ("https://example.com/".to_string(), 2048),
        ("https://example.com/big.js".to_string(), 600_000),
        ("https://example.com/s.css".to_string(), 1000),
        ("https://example.com/a.png".to_string(), 400_000),
        ("https://example.com/b.png".to_string(), 400_000),
        ("https://example.com/f.woff".to_string(), 50),
        ("https://example.com/x".to_string(), 70),
    ];
    let r = scan_result_at(
        "https://example.com/",
        Some("tg".to_string()),
        1_403_168,
        7,
        300,
        resources,
        &f,
        "2024-01-01 10:00:00".to_string(),
    );
    assert_eq!(r.url, "https://example.com/");
    assert_eq!(r.country, Some("tg".to_string()));
    assert_eq!(r.emission_factor_mg, 400_000);
    assert_eq!(r.metrics.page_size_bytes, 1_403_168);
    assert_eq!(r.metrics.nb_requests, 7);
    assert_eq!(r.metrics.dom_size, 300);
    assert_eq!(r.metrics.estimated_carbon, estimate_carbon(1_403_168, 400_000));
    assert_eq!(r.ecoindex_score, calculate_ecoindex(1_403_168, 7, 300));
    assert_eq!(r.grade, Grade::from_score(r.ecoindex_score));
    assert_eq!(r.production_ready, r.grade.production_message().1);
    assert_eq!(r.timestamp, "2024-01-01 10:00:00");
    let urls: Vec<&str> = r.heaviest_resources.iter().map(|i| i.url.as_str()).collect();
    assert_eq!(
        urls,
        vec![
            "https://example.com/big.js",
            "https://example.com/a.png",
            "https://example.com/b.png",
            "https://example.com/",
            "https://example.com/s.css"
        ]
    );
    assert_eq!(r.heaviest_resources[0].resource_type, "JavaScript");
    assert_eq!(r.heaviest_resources[0].size_bytes, 600_000);
    assert_eq!(
        r.heaviest_resources[0].recommendation,
        "Activer la minification et la compression Brotli/Gzip. Envisager le code splitting."
    );
    assert_eq!(r.heaviest_resources[1].resource_type, "Image");
    assert_eq!(
        r.heaviest_resources[1].recommendation,
        "Convertir en format WebP/AVIF, redimensionner et compresser."
    );
    assert_eq!(r.heaviest_resources[3].resource_type, "Autre");
    assert_eq!(r.heaviest_resources[4].resource_type, "CSS");
}

#[test]
fn scan_result_without_country_uses_world_average() {
    let f = sample_factors();
    let r = build_scan_result("http://localhost:3000", None, 0, 1, 10, vec![], &f);
    assert_eq!(r.emission_factor_mg, 475_000);
    assert_eq!(r.country, None);
    assert!(r.heaviest_resources.is_empty());
    assert_eq!(r.grade, Grade::A);
    assert!(r.production_ready);
    // The local time, as YYYY-MM-DD HH:MM:SS.
    assert_eq!(r.timestamp.len(), 19);
    for (i, c) in r.timestamp.chars().enumerate() {
        match i {
            4 | 7 => assert_eq!(c, '-'),
            10 => assert_eq!(c, ' '),
            13 | 16 => assert_eq!(c, ':'),
            _ => assert!(c.is_ascii_digit()),
        }
    }
}

#[test]
fn scan_result_unknown_country_uses_world_average() {
    let f = sample_factors();
    let r = build_scan_result("http://x", Some("zz".to_string()), 2_048_000, 100, 1500, vec![], &f);
    assert_eq!(r.emission_factor_mg, 475_000);
    assert_eq!(r.ecoindex_score, 0);
    assert_eq!(r.grade, Grade::F);
    assert!(!r.production_ready);
}
