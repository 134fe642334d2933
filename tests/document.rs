use aza::document::DocumentUploadResponseDocuments;

#[test]
fn test_internal_name() {
    let doc = DocumentUploadResponseDocuments {
        id: "c516372a-24fc-48b6-9be5-85ace8ec2e28".to_string(),
        title: "Addiscott-2012-Climate-Change-and-Modelling.pdf".to_string(),
    };
    let expected_name_internal = "Addiscott-2012-Climate-Change-and-Modelling.pdf-c516372a-24fc-48b6-9be5-85ace8ec2e28.json";
    let expected_doc_filepath_internal = format!("custom-documents/{}", expected_name_internal);
    assert_eq!(doc.name_internal(), expected_name_internal);
    assert_eq!(doc.doc_filepath_internal(), expected_doc_filepath_internal);
}

#[test]
fn internal_name_of_empty_title() {
    let doc = DocumentUploadResponseDocuments { id: "x1".to_string(), title: String::new() };
    assert_eq!(doc.name_internal(), "-x1.json");
    assert_eq!(doc.doc_filepath_internal(), "custom-documents/-x1.json");
}
