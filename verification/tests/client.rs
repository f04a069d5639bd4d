use bloop::client::{
    handle_client_configuration, ClientConfigurationHandle, ClientConfigurationResponse, ProgressSampler,
    ResponseDelivery, DEFAULT_PROGRESS_UPDATES_PER_SECOND,
};

fn configured_rate(response: Option<ClientConfigurationResponse>) -> u32 {
    match response {
        Some(ClientConfigurationResponse::Configured { progress_updates_per_second }) => progress_updates_per_second,
        other => panic!("expected a configured response, got {other:?}"),
    }
}

fn error_text(response: Option<ClientConfigurationResponse>) -> String {
    match response {
        Some(ClientConfigurationResponse::Error(message)) => message,
        other => panic!("expected an error response, got {other:?}"),
    }
}

#[test]
fn client_configuration_defaults_to_ten_hz() {
    let configuration = ClientConfigurationHandle::new();
    assert_eq!(configuration.progress_updates_per_second(), DEFAULT_PROGRESS_UPDATES_PER_SECOND);
    assert_eq!(configuration.progress_updates_per_second(), 10);
}

#[test]
fn client_configuration_is_local_and_validated() {
    let mut first = ClientConfigurationHandle::new();
    let second = ClientConfigurationHandle::new();

    let response = handle_client_configuration(Some(60), false, &mut first);

    assert_eq!(first.progress_updates_per_second(), 60);
    assert_eq!(second.progress_updates_per_second(), 10);
    assert_eq!(configured_rate(response), 60);
}

#[test]
fn invalid_rate_does_not_change_configuration() {
    let mut configuration = ClientConfigurationHandle::new();

    let response = handle_client_configuration(Some(61), false, &mut configuration);

    let message = error_text(response);
    assert!(!message.is_empty());
    assert_eq!(message, "Progress update rate must be between 0 and 60 Hz");
    assert_eq!(configuration.progress_updates_per_second(), 10);
}

#[test]
fn accepts_supported_progress_rates() {
    let mut configuration = ClientConfigurationHandle::new();

    for rate in [0, 1, 10, 30, 60] {
        let response = handle_client_configuration(Some(rate), false, &mut configuration);
        assert_eq!(configured_rate(response), rate);
    }
}

#[test]
fn rejects_configuration_combined_with_a_core_request() {
    let mut configuration = ClientConfigurationHandle::new();

    let response = handle_client_configuration(Some(30), true, &mut configuration);

    let message = error_text(response);
    assert!(!message.is_empty());
    assert_eq!(message, "Client configuration must be a standalone request");
    assert_eq!(configuration.progress_updates_per_second(), 10);
}

#[test]
fn a_request_without_configuration_gets_no_answer() {
    let mut configuration = ClientConfigurationHandle::new();
    assert!(handle_client_configuration(None, true, &mut configuration).is_none());
    assert!(handle_client_configuration(None, false, &mut configuration).is_none());
    assert_eq!(configuration.progress_updates_per_second(), 10);
}

#[test]
fn zero_rate_still_delivers_terminal_progress() {
    let mut sampler: ProgressSampler<f64> = ProgressSampler::new();

    let held = sampler.on_response(Some(0.5), false, true);
    assert!(matches!(held, ResponseDelivery::Hold));

    let delivered = sampler.on_response(Some(0.0), true, true);
    match delivered {
        ResponseDelivery::Deliver { progress } => assert_eq!(progress, Some(0.0)),
        ResponseDelivery::Hold => panic!("terminal progress must go out at once"),
    }
    assert_eq!(sampler.on_deadline(), None);
}

#[test]
fn samples_supported_rates_and_keeps_only_the_newest_progress() {
    let mut sampler: ProgressSampler<f64> = ProgressSampler::new();
    assert!(matches!(sampler.on_response(Some(0.25), false, true), ResponseDelivery::Hold));
    assert!(matches!(sampler.on_response(Some(0.75), false, true), ResponseDelivery::Hold));
    assert_eq!(sampler.on_deadline(), Some(0.75));
    assert_eq!(sampler.on_deadline(), None);
}

#[test]
fn forwards_non_progress_fields_immediately_and_samples_progress_separately() {
    let mut sampler: ProgressSampler<f64> = ProgressSampler::new();

    let immediate = sampler.on_response(Some(0.5), false, false);
    match immediate {
        ResponseDelivery::Deliver { progress } => assert_eq!(progress, None),
        ResponseDelivery::Hold => panic!("the other fields must go out at once"),
    }
    assert_eq!(sampler.on_deadline(), Some(0.5));
}

#[test]
fn responses_without_progress_go_out_and_keep_what_is_held() {
    let mut sampler: ProgressSampler<u32> = ProgressSampler::new();
    sampler.on_response(Some(3), false, true);
    match sampler.on_response(None, false, false) {
        ResponseDelivery::Deliver { progress } => assert_eq!(progress, None),
        ResponseDelivery::Hold => panic!("a response without progress goes out"),
    }
    assert_eq!(sampler.on_deadline(), Some(3));
}
