use fundverse::ml::{translate_url, TranslateReq};

#[test]
fn translate_url_percent_encodes_the_text() {
    let req = TranslateReq {
        q: "hello world".to_string(),
        source: String::new(),
        target: "fr".to_string(),
    };
    assert_eq!(
        translate_url(&req),
        "https://api.mymemory.translated.net/get?q=hello%20world&langpair=en|fr"
    );
}

#[test]
fn translate_url_passes_plain_text_through() {
    let req = TranslateReq {
        q: "hi".to_string(),
        source: "xx".to_string(),
        target: "de".to_string(),
    };
    // the source language is carried but ignored: the pair assumes English
    assert_eq!(
        translate_url(&req),
        "https://api.mymemory.translated.net/get?q=hi&langpair=en|de"
    );
}
