use stt::catalog::{
    available_models, get_language_display_name, get_model_info_for_language, language_of_locale,
    model_is_complete, select_model, supported_languages, MARKER_FILE, MODELS_SUBDIR, STAGING_SUBDIR,
};

#[test]
fn catalog_lists_nine_models() {
    let models = available_models();
    let langs: Vec<&str> = models.iter().map(|m| m.lang).collect();
    assert_eq!(
        langs,
        vec!["en-US", "pt-BR", "es-ES", "fr-FR", "de-DE", "ru-RU", "zh-CN", "ja-JP", "it-IT"]
    );
    assert_eq!(models[0].name, "vosk-model-en-us-0.42-gigaspeech");
    assert_eq!(models[0].md5, "db1202c15b40ea4b1ec27b85a90dffbe");
    assert_eq!(models[0].size, 2_423_807_363);
    assert_eq!(models[8].size, 1_306_765_292);
}

#[test]
fn archives_are_pinned() {
    for model in available_models() {
        assert_eq!(
            model.url,
            format!("https://alphacephei.com/vosk/models/{}.zip", model.name)
        );
        assert!(model.size > 0);
        assert_eq!(model.md5.len(), 32);
        assert!(model.md5.chars().all(|c| c.is_ascii_digit() || ('a'..='f').contains(&c)));
    }
}

#[test]
fn exact_language_wins() {
    for model in available_models() {
        assert_eq!(get_model_info_for_language(model.lang).unwrap().name, model.name);
    }
}

#[test]
fn other_regions_share_a_model() {
    for tag in ["pt", "pt-PT", "pt-BR", "pt-"] {
        let model = get_model_info_for_language(tag).unwrap();
        assert_eq!(model.lang, "pt-BR");
    }
    assert_eq!(get_model_info_for_language("en-GB").unwrap().lang, "en-US");
}

#[test]
fn unlisted_languages_have_no_model() {
    for tag in ["nl-NL", "", "PT-BR", "pt_BR", "-"] {
        assert!(get_model_info_for_language(tag).is_none());
        assert_eq!(select_model(Some(tag), None).lang, "en-US");
    }
    assert_eq!(select_model(None, None).lang, "en-US");
    assert_eq!(select_model(Some("ja"), None).lang, "ja-JP");
}

#[test]
fn device_language_fills_in() {
    assert_eq!(select_model(None, Some("de-DE")).lang, "de-DE");
    assert_eq!(select_model(None, Some("pt-PT")).lang, "pt-BR");
    assert_eq!(select_model(None, Some("nl-NL")).lang, "en-US");
    assert_eq!(select_model(Some("fr"), Some("de-DE")).lang, "fr-FR");
    assert_eq!(select_model(Some("nl-NL"), Some("de-DE")).lang, "en-US");
}

#[test]
fn locales_name_a_language() {
    let expected = [
        ("de_DE.UTF-8", Some("de-DE")),
        ("pt_BR", Some("pt-BR")),
        ("ja", Some("ja")),
        ("it_IT@euro", Some("it-IT")),
        ("fr_FR.ISO8859-15@euro", Some("fr-FR")),
        ("C", None),
        ("C.UTF-8", None),
        ("POSIX", None),
        ("", None),
        (".UTF-8", None),
    ];
    for (locale, tag) in expected {
        assert_eq!(language_of_locale(locale).as_deref(), tag);
    }
}

#[test]
fn marker_has_to_record_the_checksum() {
    let md5 = "23298ddeb602739016956144ac4c74de";
    assert!(model_is_complete(&Some(md5.to_string()), md5));
    assert!(model_is_complete(&Some(format!(" {}\n", md5.to_uppercase())), md5));
    assert!(!model_is_complete(&None, md5));
    assert!(!model_is_complete(&Some(String::new()), md5));
    assert!(!model_is_complete(&Some(md5[1..].to_string()), md5));
}

#[test]
fn model_is_installed_by_its_own_marker_only() {
    let german = select_model(Some("de"), None);
    let french = select_model(Some("fr"), None);
    assert!(german.is_installed_in(&Some(german.md5.to_string())));
    assert!(!german.is_installed_in(&Some(french.md5.to_string())));
    assert!(!german.is_installed_in(&None));
}

#[test]
fn staging_names_derive_from_the_model() {
    let model = select_model(Some("es"), None);
    assert_eq!(model.archive_file_name(), "vosk-model-es-0.42.zip.part");
    assert_eq!(model.extract_dir_name(), "vosk-model-es-0.42-extract");
    assert_eq!(MODELS_SUBDIR, "tauri-plugin-stt/models");
    assert_eq!(STAGING_SUBDIR, ".incomplete");
    assert_eq!(MARKER_FILE, ".verified-md5");
}

#[test]
fn languages_have_display_names() {
    let expected = [
        ("en-US", "English (United States)"),
        ("pt-BR", "Portuguese (Brazil)"),
        ("es-ES", "Spanish (Spain)"),
        ("fr-FR", "French (France)"),
        ("de-DE", "German (Germany)"),
        ("ru-RU", "Russian (Russia)"),
        ("zh-CN", "Chinese (Simplified)"),
        ("ja-JP", "Japanese (Japan)"),
        ("it-IT", "Italian (Italy)"),
        ("nl-NL", "nl-NL"),
        ("", ""),
    ];
    for (code, name) in expected {
        assert_eq!(get_language_display_name(code), name);
    }
}

#[test]
fn supported_languages_tell_what_is_installed() {
    let models = available_models();
    let mut recorded: Vec<Option<String>> = vec![None; models.len()];
    recorded[4] = Some(models[4].md5.to_string());
    recorded[5] = Some("something else".to_string());
    let response = supported_languages(&recorded);
    assert_eq!(response.languages.len(), 9);
    for (i, language) in response.languages.iter().enumerate() {
        assert_eq!(language.code, models[i].lang);
        assert_eq!(language.installed, Some(i == 4));
    }
    assert_eq!(response.languages[4].name, "German (Germany)");
}
