use combustion_probe::status::{respond, route, Route, S3Status, Svc, SvcStatus};

#[test]
fn a_new_cell_is_discovering() {
    let svc = Svc::new();
    assert_eq!(svc.get_status(), SvcStatus::Discovering);
    assert_eq!(svc.get_raw_temp(), 0);
    assert_eq!(svc.get_s3_status(), S3Status::Uninit);
}

#[test]
fn setters_change_one_thing_each() {
    let mut svc = Svc::new();
    svc.set_status(SvcStatus::Connected);
    assert_eq!(svc.get_status(), SvcStatus::Connected);
    assert_eq!(svc.get_raw_temp(), 0);
    assert_eq!(svc.get_s3_status(), S3Status::Uninit);
    svc.set_raw_temp(2005);
    assert_eq!(svc.get_status(), SvcStatus::Connected);
    assert_eq!(svc.get_raw_temp(), 2005);
    assert_eq!(svc.get_s3_status(), S3Status::Uninit);
    svc.set_s3_status(S3Status::Error);
    assert_eq!(svc.get_status(), SvcStatus::Connected);
    assert_eq!(svc.get_raw_temp(), 2005);
    assert_eq!(svc.get_s3_status(), S3Status::Error);
}

#[test]
fn stage_labels() {
    assert_eq!(SvcStatus::Discovering.label(), "discovering");
    assert_eq!(SvcStatus::Connecting.label(), "connecting");
    assert_eq!(SvcStatus::Connected.label(), "connected");
    assert_eq!(SvcStatus::Running.label(), "running");
}

#[test]
fn archival_labels() {
    assert_eq!(S3Status::Uninit.label(), "uninitialized");
    assert_eq!(S3Status::Writing.label(), "writing");
    assert_eq!(S3Status::Error.label(), "error");
}

#[test]
fn archival_status_after_a_push() {
    assert_eq!(S3Status::after_push(true), S3Status::Writing);
    assert_eq!(S3Status::after_push(false), S3Status::Error);
}

#[test]
fn only_the_root_is_the_status_document() {
    assert_eq!(route("/"), Route::Status);
    assert_eq!(route(""), Route::Fallback);
    assert_eq!(route("//"), Route::Fallback);
    assert_eq!(route("/status"), Route::Fallback);
    assert_eq!(route("\u{e9}"), Route::Fallback);
}

#[test]
fn status_document() {
    let mut svc = Svc::new();
    svc.set_status(SvcStatus::Running);
    svc.set_s3_status(S3Status::Writing);
    assert_eq!(
        respond("/", "68.09", &svc),
        "{ \"temp\": 68.09, \"status\": \"running\", \"s3\": \"writing\" }"
    );
}

#[test]
fn status_document_of_a_new_cell() {
    let svc = Svc::new();
    assert_eq!(
        respond("/", "0", &svc),
        "{ \"temp\": 0, \"status\": \"discovering\", \"s3\": \"uninitialized\" }"
    );
}

#[test]
fn fallback_body() {
    let svc = Svc::new();
    assert_eq!(respond("/metrics", "68.09", &svc), "Whoopsie");
}
