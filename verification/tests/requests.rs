use lxp::lxpapi::{
    append_chunk, check_status, confirm_upload, decode, require_data, Error, LxpApi, Method,
    MAX_RESPONSE_BYTES,
};
use lxp::lxptypes::{ApiMode, ColorPrint, Envelope, Letter, LetterError, Mode, Ship, Specification};
use serde_json::Value;

fn api(mode: ApiMode) -> LxpApi {
    LxpApi::new("dummy-user".to_string(), "dummy-secret".to_string(), mode)
}

/// Reads a body as the service envelope, as the transport does.
fn envelope(bytes: &[u8]) -> Option<Envelope<Value>> {
    let value: Value = serde_json::from_slice(bytes).ok()?;
    let status = u16::try_from(value.get("status")?.as_u64()?).ok()?;
    Some(Envelope {
        status,
        data: value.get("data").cloned(),
    })
}

#[test]
fn response_envelopes() {
    let balance = decode(envelope(br#"{"status":200,"data":{"balance":5,"currency":"EUR"}}"#))
        .expect("valid envelope")
        .expect("balance data");
    assert_eq!(balance["balance"].as_f64(), Some(5.0));
    assert!(decode(envelope(br#"{"status":200,"message":"deleted"}"#))
        .expect("valid cancellation")
        .is_none());
    assert!(matches!(
        decode(envelope(br#"{"status":400,"message":"bad request"}"#)),
        Err(Error::Api { status: 400 })
    ));
    assert!(matches!(decode(envelope(b"not json")), Err(Error::Json)));
}

#[test]
fn live_requires_confirmation() {
    let live = api(ApiMode::Live);
    let letter = Letter::from_pdf(
        b"%PDF-1.7",
        "test.pdf".into(),
        Specification::default(),
        None,
    )
    .expect("valid header");
    assert_eq!(letter.base64_file, b"JVBERi0xLjc=".to_vec());
    assert!(matches!(live.send(false), Err(Error::LiveConfirmationRequired)));
    let call = live.send(true).expect("confirmed live upload");
    assert_eq!(call.method, Method::Post);
    assert_eq!(call.url, "https://api.letterxpress.de/v3/printjobs");
    let test = api(ApiMode::Test);
    assert!(test.send(false).is_ok());
}

#[test]
fn endpoint_urls() {
    let api = api(ApiMode::Test);
    let balance = api.balance();
    assert_eq!(balance.method, Method::Get);
    assert_eq!(balance.url, "https://api.letterxpress.de/v3/balance");
    assert_eq!(api.price().url, "https://api.letterxpress.de/v3/price");
    assert_eq!(
        api.jobs(None, 1).url,
        "https://api.letterxpress.de/v3/printjobs?page=1"
    );
    assert_eq!(
        api.jobs(Some("draft"), 20).url,
        "https://api.letterxpress.de/v3/printjobs?page=20&filter=draft"
    );
    assert_eq!(
        api.job(12345).url,
        "https://api.letterxpress.de/v3/printjobs/12345"
    );
    let cancel = api.cancel(7);
    assert_eq!(cancel.method, Method::Delete);
    assert_eq!(cancel.url, "https://api.letterxpress.de/v3/printjobs/7");
    assert_eq!(
        api.invoices(3).url,
        "https://api.letterxpress.de/v3/invoices?page=3"
    );
    assert_eq!(
        api.invoice(u64::MAX).url,
        "https://api.letterxpress.de/v3/invoices/18446744073709551615"
    );
}

#[test]
fn request_body_carries_credentials_and_mode() {
    let body = api(ApiMode::Test).body(Some(42u8));
    assert_eq!(body.auth.username, "dummy-user");
    assert_eq!(body.auth.apikey, "dummy-secret");
    assert_eq!(body.auth.mode, ApiMode::Test);
    assert_eq!(body.letter, Some(42));
    assert_eq!(ApiMode::Test.name(), "test");
    assert_eq!(ApiMode::Live.name(), "live");
}

#[test]
fn http_status_must_succeed() {
    assert!(check_status(200).is_ok());
    assert!(check_status(299).is_ok());
    assert_eq!(check_status(307), Err(Error::Http { status: 307 }));
    assert_eq!(check_status(199), Err(Error::Http { status: 199 }));
    assert_eq!(check_status(500), Err(Error::Http { status: 500 }));
}

#[test]
fn responses_are_bounded() {
    let mut body = vec![1u8, 2];
    append_chunk(&mut body, &[3, 4]).expect("small chunk");
    assert_eq!(body, vec![1, 2, 3, 4]);
    let mut big = vec![0u8; MAX_RESPONSE_BYTES - 1];
    append_chunk(&mut big, &[9]).expect("exactly at the limit");
    assert_eq!(big.len(), MAX_RESPONSE_BYTES);
    assert_eq!(append_chunk(&mut big, &[9]), Err(Error::ResponseTooLarge));
    assert_eq!(big.len(), MAX_RESPONSE_BYTES);
}

#[test]
fn uploads_are_confirmed_only_by_job_data() {
    assert_eq!(confirm_upload(Ok::<Option<u8>, Error>(Some(7))), Ok(7));
    assert_eq!(
        confirm_upload::<u8>(Ok(None)),
        Err(Error::Unconfirmed {
            source: Box::new(Error::MissingData)
        })
    );
    assert_eq!(
        confirm_upload::<u8>(Err(Error::Json)),
        Err(Error::Unconfirmed {
            source: Box::new(Error::Json)
        })
    );
    assert_eq!(require_data(Ok::<Option<u8>, Error>(Some(1))), Ok(1));
    assert_eq!(require_data::<u8>(Ok(None)), Err(Error::MissingData));
    assert_eq!(
        require_data::<u8>(Err(Error::Transport)),
        Err(Error::Transport)
    );
}

#[test]
fn letters_require_pdf_header() {
    assert!(matches!(
        Letter::from_pdf(b"not a PDF", "x.pdf".into(), Specification::default(), None),
        Err(LetterError::MissingPdfHeader)
    ));
    let spec = Specification {
        color: ColorPrint::Color,
        mode: Mode::Duplex,
        ship: Ship::International,
    };
    let letter = Letter::from_pdf(b"%PDF-", "a.pdf".into(), spec, Some("ref".into()))
        .expect("header only");
    assert_eq!(letter.base64_file, b"JVBERi0=".to_vec());
    assert_eq!(letter.base64_file_checksum, "89ca14f172b2db95d52fc0df73e18fc3");
    assert_eq!(letter.filename_original, "a.pdf");
    assert_eq!(letter.specification, spec);
    assert_eq!(letter.notice.as_deref(), Some("ref"));
    assert_eq!(
        Specification::default(),
        Specification {
            color: ColorPrint::BlackAndWhite,
            mode: Mode::Simplex,
            ship: Ship::National
        }
    );
}
