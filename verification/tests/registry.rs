use libkazm::callback_handler::{CallbackError, CallbackHandler};
use libkazm::status_code::StatusCode;

fn ok_handler() -> StatusCode {
    StatusCode::Okay
}

fn not_found_handler() -> StatusCode {
    StatusCode::NotFound
}

#[test]
fn registered_callback_is_dispatched() {
    let mut registry: CallbackHandler<fn() -> StatusCode> = CallbackHandler::new();

    registry.register("/Test", ok_handler).unwrap();

    assert_eq!(registry.handle("/Test"), Ok(StatusCode::Okay));
}

#[test]
fn registering_twice_fails_and_keeps_the_first_handler() {
    let mut registry: CallbackHandler<fn() -> StatusCode> = CallbackHandler::new();

    registry.register("/Test", ok_handler).unwrap();
    let second = registry.register("/Test", not_found_handler);

    assert_eq!(second, Err(CallbackError::AlreadyRegistered));
    assert_eq!(registry.handle("/Test"), Ok(StatusCode::Okay));
}

#[test]
fn dispatching_an_unknown_path_reports_no_callback() {
    let registry: CallbackHandler<fn() -> StatusCode> = CallbackHandler::new();

    assert_eq!(registry.handle("/Missing"), Err(CallbackError::NoCallbackForPath));
}

#[test]
fn unregistering_removes_the_callback() {
    let mut registry: CallbackHandler<fn() -> StatusCode> = CallbackHandler::new();

    registry.register("/Test", ok_handler).unwrap();
    registry.unregister("/Test").unwrap();

    assert_eq!(registry.handle("/Test"), Err(CallbackError::NoCallbackForPath));
}

#[test]
fn unregistering_an_unknown_path_fails() {
    let mut registry: CallbackHandler<fn() -> StatusCode> = CallbackHandler::new();

    assert_eq!(registry.unregister("/Test"), Err(CallbackError::NoCallbackForPath));
}

#[test]
fn default_registry_is_empty() {
    let registry: CallbackHandler<fn() -> StatusCode> = Default::default();

    assert_eq!(registry.handle("/Test"), Err(CallbackError::NoCallbackForPath));
}

#[test]
fn boxed_closures_serve_as_handlers() {
    let mut registry: CallbackHandler<Box<dyn Fn() -> StatusCode + Sync + Send>> =
        CallbackHandler::new();

    registry.register("/Test", Box::new(|| StatusCode::Okay)).unwrap();

    assert_eq!(registry.handle("/Test"), Ok(StatusCode::Okay));
}
