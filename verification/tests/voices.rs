use lcn_core::services::voices::parse;

const BASE: &str = "https://host/preprod/";

#[test]
fn parse_producteurs_et_emissions() {
    let data = r#"{
        "producers":[
            {"name":"Dr. John","role":"Production","image":"assets/media/producers/drjohn.webp","bio":"…"},
            {"role":"sans nom"}
        ],
        "shows":[
            {"title":"L'Autre Nuit","meta":"Émission","image":"assets/media/shows/x.webp","href":"https://x","actionLabel":"Écouter le podcast"},
            {"title":"Sans lien","meta":"Mixtapes","image":"y.webp","imageFit":"contain"}
        ]
    }"#;
    let v = parse(data, BASE);
    assert_eq!(v.producers.len(), 1);
    assert_eq!(v.producers[0].image.url.as_deref(), Some("https://host/preprod/assets/media/producers/drjohn.webp"));

    assert_eq!(v.shows.len(), 2);
    assert_eq!(v.shows[0].action_label, "Écouter le podcast");
    assert!(!v.shows[0].image.fit_contain);
    assert_eq!(v.shows[1].action_label, "En rotation sur la radio");
    assert!(v.shows[1].image.fit_contain);
}

#[test]
fn action_label_repli_decouvrir() {
    let data = r#"{"shows":[{"title":"T","href":"https://x"}]}"#;
    assert_eq!(parse(data, BASE).shows[0].action_label, "Découvrir");
}

#[test]
fn optional_fields_and_invalid_payloads() {
    let data = r#"{"producers":[{"name":" N ","href":"  "}],"shows":[{"title":"S","imageFit":"CONTAIN"}]}"#;
    let v = parse(data, BASE);
    assert_eq!(v.producers[0].name, "N");
    assert_eq!(v.producers[0].href, None);
    assert_eq!(v.producers[0].image.url, None);
    assert!(v.shows[0].image.fit_contain);
    let empty = parse("[]", BASE);
    assert!(empty.producers.is_empty() && empty.shows.is_empty());
}
