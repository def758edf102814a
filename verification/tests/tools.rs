use base64::Engine;
use longhorn_agent::control::tools::{
    check_opaque_id, ElementRef, FileInputFile, OpaqueIdError, SelectionId, SetFileInputRequest,
    ToolError, WebviewLabel, WindowId, MAX_FILE_INPUT_BYTES, MAX_OPAQUE_ID_BYTES,
};

fn ref_a() -> ElementRef {
    ElementRef::new("e1").unwrap()
}

fn hi_file() -> FileInputFile {
    FileInputFile {
        name: "note.txt".to_owned(),
        media_type: Some("text/plain".to_owned()),
        content_base64: base64::engine::general_purpose::STANDARD.encode(b"hi"),
    }
}

fn request_with(files: Vec<FileInputFile>) -> SetFileInputRequest {
    SetFileInputRequest { window: None, webview: None, element: ref_a(), files }
}

#[test]
fn element_refs_are_bounded_opaque_strings() {
    assert_eq!(ElementRef::new("").unwrap_err(), OpaqueIdError::Empty);
    let long = "x".repeat(MAX_OPAQUE_ID_BYTES + 1);
    assert!(matches!(ElementRef::new(&long).unwrap_err(), OpaqueIdError::TooLong { .. }));
}

#[test]
fn opaque_ids_count_bytes_not_characters() {
    let at_limit = "x".repeat(MAX_OPAQUE_ID_BYTES);
    assert!(check_opaque_id(&at_limit).is_ok());
    let wide = "é".repeat(MAX_OPAQUE_ID_BYTES / 2 + 1);
    assert_eq!(
        check_opaque_id(&wide).unwrap_err(),
        OpaqueIdError::TooLong { maximum: MAX_OPAQUE_ID_BYTES, actual: MAX_OPAQUE_ID_BYTES + 2 }
    );
    assert_eq!(WebviewLabel::new("preview").unwrap().as_str(), "preview");
    assert_eq!(SelectionId::new("sel_1").unwrap().duplicate(), SelectionId::new("sel_1").unwrap());
}

#[test]
fn set_file_input_has_no_path_and_validates_bounds() {
    let request = request_with(vec![hi_file()]);
    request.validate().unwrap();

    let empty = request_with(Vec::new());
    assert!(empty.validate().unwrap_err().contains("at least one file"));

    let unnamed = request_with(vec![FileInputFile {
        name: String::new(),
        media_type: None,
        content_base64: hi_file().content_base64,
    }]);
    assert!(unnamed.validate().unwrap_err().contains("non-empty"));

    let bad_base64 = request_with(vec![FileInputFile {
        name: "note.txt".to_owned(),
        media_type: None,
        content_base64: "@@@".to_owned(),
    }]);
    let message = bad_base64.validate().unwrap_err();
    assert!(message.contains("base64"));
    assert_eq!(message, "set_file_input file \"note.txt\" is not valid base64");
}

#[test]
fn set_file_input_decoded_cap_is_eight_mib() {
    let standard = base64::engine::general_purpose::STANDARD;
    let allowed = request_with(vec![FileInputFile {
        name: "blob.bin".to_owned(),
        media_type: None,
        content_base64: standard.encode(vec![0u8; MAX_FILE_INPUT_BYTES]),
    }]);
    allowed.validate().unwrap();
    let over = request_with(vec![FileInputFile {
        name: "blob.bin".to_owned(),
        media_type: None,
        content_base64: standard.encode(vec![0u8; MAX_FILE_INPUT_BYTES + 1]),
    }]);
    assert!(over.validate().unwrap_err().contains("8 MiB"));
}

#[test]
fn the_cap_applies_to_the_running_total_in_file_order() {
    let standard = base64::engine::general_purpose::STANDARD;
    let half = MAX_FILE_INPUT_BYTES / 2;
    let request = request_with(vec![
        FileInputFile { name: "a".to_owned(), media_type: None, content_base64: standard.encode(vec![0u8; half]) },
        FileInputFile { name: "b".to_owned(), media_type: None, content_base64: standard.encode(vec![0u8; half + 1]) },
        FileInputFile { name: String::new(), media_type: None, content_base64: "@@@".to_owned() },
    ]);
    assert_eq!(request.validate().unwrap_err(), "set_file_input decoded total exceeds 8 MiB");
}

#[test]
fn tool_error_wording() {
    assert_eq!(
        ToolError::WaitTimeout { timeout_ms: 250 }.message(),
        "predicate did not hold within 250 ms"
    );
    assert_eq!(
        ToolError::UnknownWebview { webview: WebviewLabel::new("preview").unwrap() }.message(),
        "webview WebviewLabel(\"preview\") is not hosted by the window"
    );
    assert_eq!(
        ToolError::UnresolvedRef { element: ref_a() }.message(),
        "element ref ElementRef(\"e1\") does not resolve against the live DOM"
    );
    assert_eq!(
        ToolError::UnknownWindow { window: WindowId::new("main").unwrap() }.message(),
        "window WindowId(\"main\") does not exist"
    );
    assert_eq!(
        ToolError::SettledSelection { id: SelectionId::new("sel_1").unwrap() }.message(),
        "selection SelectionId(\"sel_1\") has already settled"
    );
    assert_eq!(
        ToolError::MalformedSelection { message: "x".to_owned() }.message(),
        "malformed selection answer: x"
    );
    assert_eq!(
        format!("{:?}", ref_a()),
        "ElementRef(\"e1\")"
    );
}

#[test]
fn identifiers_write_and_read_back_their_text() {
    let id = SelectionId::new("sel_abc").unwrap();
    assert_eq!(id.to_string(), "sel_abc");
    assert_eq!(id.as_str().parse::<SelectionId>(), Ok(SelectionId::new("sel_abc").unwrap()));
    assert_eq!("".parse::<SelectionId>(), Err(OpaqueIdError::Empty));
    let element = ElementRef::new("e7").unwrap();
    assert_eq!(element.to_string(), "e7");
    assert_eq!("e7".parse::<ElementRef>(), Ok(element));
    let label = WebviewLabel::new("preview").unwrap();
    assert_eq!(label.to_string(), "preview");
    assert_eq!("preview".parse::<WebviewLabel>(), Ok(label));
}
