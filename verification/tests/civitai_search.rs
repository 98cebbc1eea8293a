use mooshie_core::civitai_search::{architecture_catalog, civitai_search_url, common_architectures, next_cursor, CivitaiSearchParams};

fn empty_params() -> CivitaiSearchParams {
    CivitaiSearchParams {
        query: None,
        model_type: None,
        base_model: None,
        file_format: None,
        status: None,
        sort: None,
        period: None,
        nsfw: None,
        page: None,
        cursor: None,
        limit: None,
        api_key: None,
    }
}

#[test]
fn default_search_url_uses_the_documented_defaults() {
    assert_eq!(
        civitai_search_url(&empty_params()),
        "https://civitai.com/api/v1/models?sort=Most+Downloaded&period=AllTime&nsfw=false&limit=20&page=1"
    );
}

#[test]
fn text_query_drops_the_page_and_filters_keep_their_brackets() {
    let mut p = empty_params();
    p.query = Some("anime girl/é".to_string());
    p.model_type = Some("LORA".to_string());
    p.base_model = Some("SDXL 1.0".to_string());
    p.file_format = Some("  ".to_string());
    p.cursor = Some("abc|123".to_string());
    p.nsfw = Some(true);
    p.limit = Some(50);
    p.page = Some(4);
    p.sort = Some("Highest Rated".to_string());
    p.status = Some("Published".to_string());
    assert_eq!(
        civitai_search_url(&p),
        "https://civitai.com/api/v1/models?sort=Highest+Rated&period=AllTime&nsfw=true&limit=50\
         &cursor=abc%7C123&query=anime+girl%2F%C3%A9&types[]=LORA&baseModels[]=SDXL+1.0"
    );
}

#[test]
fn blank_query_keeps_the_page() {
    let mut p = empty_params();
    p.query = Some("   ".to_string());
    p.page = Some(3);
    assert!(civitai_search_url(&p).ends_with("&limit=20&page=3"));
}

#[test]
fn architecture_catalog_is_sorted_and_deduplicated() {
    let reported = vec![
        " Pony ".to_string(),
        "ZImageTurbo".to_string(),
        "".to_string(),
        "   ".to_string(),
        "Aardvark 1".to_string(),
        "ZImageTurbo".to_string(),
    ];
    let cat = architecture_catalog(&reported);
    assert_eq!(cat.len(), common_architectures().len() + 2);
    assert_eq!(cat[0], "Aardvark 1");
    assert_eq!(cat[cat.len() - 1], "ZImageTurbo");
    let mut sorted = cat.clone();
    sorted.sort();
    sorted.dedup();
    assert_eq!(sorted, cat);
    assert!(cat.contains(&"SDXL 1.0".to_string()));
    assert!(!cat.contains(&" Pony ".to_string()));
}

#[test]
fn next_cursor_is_trimmed_and_blank_means_done() {
    assert_eq!(next_cursor(Some(" 12|abc ")), Some("12|abc".to_string()));
    assert_eq!(next_cursor(Some("  ")), None);
    assert_eq!(next_cursor(None), None);
}
