use aza::error::LLMError;
use aza::naming::{
    filename_from_path, path_base_name, pdf_meta_title, remove_uuid, wrangle_collapsed, MAX_PDF_BYTES,
};

#[test]
fn test_name_from_path() {
    let result = filename_from_path("/Users/richardlyon/Desktop/climate pdfs/Skrable et al. - 2022 - World Atmospheric CO2, Its 14C Specific Activity, .pdf").unwrap();
    assert_eq!(
        result,
        "Skrable-et-al.-2022-World-Atmospheric-CO2-Its-14C-Specific-Activity-.pdf"
    );
}

#[test]
fn test_remove_uuid() {
    let result = remove_uuid("Skrable-et-al.-2022-World-Atmospheric-CO2-Its-14C-Specific-Activity-.pdf-8f196830-2b84-41ce-b074-38c5989eb347.json").unwrap();
    assert_eq!(
        result,
        "Skrable-et-al.-2022-World-Atmospheric-CO2-Its-14C-Specific-Activity-.pdf"
    );
}

#[test]
fn api_test_filename_from_path() {
    let filename = "Skrable et al. - 2022 - World Atmospheric CO2, Its 14C Specific Activity, .pdf";
    let expected = "Skrable-et-al.-2022-World-Atmospheric-CO2-Its-14C-Specific-Activity-.pdf";

    assert_eq!(filename_from_path(filename).unwrap(), expected);
}

#[test]
fn endpoint_test_filename_from_path() {
    let filename = std::path::PathBuf::from(
        "Skrable et al. - 2022 - World Atmospheric CO2, Its 14C Specific Activity, .pdf",
    );
    let expected = "Skrable-et-al.-2022-World-Atmospheric-CO2-Its-14C-Specific-Activity-.pdf";

    assert_eq!(filename_from_path(filename.to_str().unwrap()).unwrap(), expected);
}

#[test]
fn runs_of_spaces_collapse() {
    assert_eq!(filename_from_path("a   b  -  c.pdf").unwrap(), "a-b-c.pdf");
    assert_eq!(filename_from_path("dir/").unwrap(), "");
}

#[test]
fn base_name_of_paths() {
    assert_eq!(path_base_name("/a/b/c.pdf"), "c.pdf");
    assert_eq!(path_base_name("c.pdf"), "c.pdf");
    assert_eq!(path_base_name(""), "");
    assert_eq!(path_base_name("/a/"), "");
}

#[test]
fn wrangling_a_collapsed_name() {
    assert_eq!(wrangle_collapsed("A - B, C"), "A-B-C");
    assert_eq!(wrangle_collapsed(""), "");
}

#[test]
fn uuid_suffix_only_at_the_end() {
    let mid = "x-8f196830-2b84-41ce-b074-38c5989eb347.json.bak";
    assert_eq!(remove_uuid(mid).unwrap(), mid);
    assert_eq!(remove_uuid("plain.pdf").unwrap(), "plain.pdf");
}

#[test]
fn pdf_titles_and_size_limit() {
    assert_eq!(pdf_meta_title("/lib/AB12/Berger 2016.pdf", 10).unwrap(), "Berger 2016.pdf");
    assert_eq!(pdf_meta_title("/lib/AB12/", 10).unwrap(), "UNKNOWN TITLE");
    assert_eq!(pdf_meta_title("x.pdf", MAX_PDF_BYTES).unwrap(), "x.pdf");
    assert!(matches!(pdf_meta_title("x.pdf", MAX_PDF_BYTES + 1), Err(LLMError::FileTooLarge)));
    assert_eq!(MAX_PDF_BYTES, 52_428_800);
}
