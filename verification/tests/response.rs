use imgzip::codec::ConvertError;
use imgzip::error::{failure_at, UploadError};
use imgzip::response::{archive_response, ContentDisposition, ContentType, Header};
use imgzip::routes::{rocket, Handler, Method, Route};

#[test]
fn content_disposition_wraps_the_body() {
    let wrapped = ContentDisposition::new(vec![1u8, 2, 3], "attachment; filename=\"images.zip\"");
    assert_eq!(wrapped.inner, vec![1u8, 2, 3]);
    assert_eq!(
        wrapped.value,
        Header {
            name: "content-disposition".to_string(),
            value: "attachment; filename=\"images.zip\"".to_string(),
        }
    );
}

#[test]
fn content_disposition_takes_any_body_and_value() {
    let wrapped = ContentDisposition::new("body", "inline");
    assert_eq!(wrapped.inner, "body");
    assert_eq!(wrapped.value.name, "content-disposition");
    assert_eq!(wrapped.value.value, "inline");
    let empty = ContentDisposition::new((), "");
    assert_eq!(empty.value.value, "");
}

#[test]
fn media_types() {
    assert_eq!(ContentType::ZIP.media_type(), "application/zip");
    assert_eq!(ContentType::HTML.media_type(), "text/html");
}

#[test]
fn archive_response_is_a_zip_attachment() {
    let (content_type, body) = archive_response(vec![9, 9]);
    assert_eq!(content_type, ContentType::ZIP);
    assert_eq!(body.inner, vec![9, 9]);
    assert_eq!(body.value.name, "content-disposition");
    assert_eq!(body.value.value, "attachment; filename=\"images.zip\"");
}

#[test]
fn service_mounts_form_and_upload() {
    assert_eq!(
        rocket(),
        vec![
            Route { method: Method::Get, path: "/".to_string(), handler: Handler::Index },
            Route { method: Method::Post, path: "/upload".to_string(), handler: Handler::Upload },
        ]
    );
}

#[test]
fn statuses_and_messages() {
    assert_eq!(UploadError::UnknownFormat.status(), 400);
    assert_eq!(UploadError::UnknownFormat.message(), "unknown format type");
    assert_eq!(UploadError::Decode { index: 0 }.status(), 500);
    assert_eq!(UploadError::Decode { index: 7 }.message(), "image could not be decoded");
    assert_eq!(UploadError::Encode { index: 3 }.status(), 500);
    assert_eq!(UploadError::Encode { index: 3 }.message(), "image could not be encoded");
    assert_eq!(UploadError::Archive.status(), 500);
    assert_eq!(UploadError::Archive.message(), "archive could not be written");
}

#[test]
fn a_failed_conversion_names_its_image() {
    assert_eq!(failure_at(0, ConvertError::Decode), UploadError::Decode { index: 0 });
    assert_eq!(failure_at(5, ConvertError::Encode), UploadError::Encode { index: 5 });
}
