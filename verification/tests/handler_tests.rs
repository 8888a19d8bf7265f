use job_queue::handlers::{JobError, NotificationHandler, OrderHandler, PaymentHandler};

#[test]
fn job_error_constructors() {
    let r = JobError::retryable("try again".to_string());
    assert!(r.retryable);
    assert_eq!(r.message, "try again");
    let f = JobError::fatal("give up".to_string());
    assert!(!f.retryable);
    assert_eq!(f.display_text(), "give up");
}

#[test]
fn handler_job_types() {
    assert_eq!(OrderHandler.job_type(), "order");
    assert_eq!(PaymentHandler.job_type(), "payment");
    assert_eq!(NotificationHandler.job_type(), "notification");
}

#[test]
fn order_payload_fields() {
    let h = OrderHandler;
    let ok = h.read_payload("{\"order_id\":\"o-1\",\"product_id\":42,\"quantity\":2}").unwrap();
    assert_eq!(ok, ("o-1".to_string(), 42));
    let e = h.read_payload("{\"product_id\":42}").unwrap_err();
    assert_eq!(e.message, "missing order_id in payload");
    assert!(!e.retryable);
    let e = h.read_payload("{\"order_id\":\"o-1\",\"product_id\":-4}").unwrap_err();
    assert_eq!(e.message, "missing product_id in payload");
    let e = h.read_payload("{\"order_id\":7,\"product_id\":4}").unwrap_err();
    assert_eq!(e.message, "missing order_id in payload");
    let e = h.read_payload("not json").unwrap_err();
    assert_eq!(e.message, "missing order_id in payload");
}

#[test]
fn order_check_fields_decides_in_order() {
    let h = OrderHandler;
    assert_eq!(h.check_fields(None, None).unwrap_err().message, "missing order_id in payload");
    assert_eq!(h.check_fields(Some("o".to_string()), None).unwrap_err().message, "missing product_id in payload");
    assert_eq!(h.check_fields(Some("o".to_string()), Some(3)).unwrap(), ("o".to_string(), 3));
}

#[test]
fn payment_payload_fields() {
    let h = PaymentHandler;
    assert_eq!(h.read_payload("{\"payment_id\":\"p\",\"amount\":12.5}").unwrap(), "p");
    assert_eq!(h.read_payload("{\"payment_id\":\"p\",\"amount\":12}").unwrap(), "p");
    assert_eq!(h.read_payload("{\"payment_id\":\"p\",\"amount\":\"12\"}").unwrap_err().message, "missing amount in payload");
    assert_eq!(h.read_payload("{\"amount\":1}").unwrap_err().message, "missing payment_id in payload");
    assert_eq!(h.check_fields(Some("q".to_string()), false).unwrap_err().message, "missing amount in payload");
}

#[test]
fn notification_payload_fields() {
    let h = NotificationHandler;
    let ok = h.read_payload("{\"recipient\":\"r@x\",\"message\":\"hi\"}").unwrap();
    assert_eq!(ok, ("r@x".to_string(), "hi".to_string()));
    assert_eq!(h.read_payload("{\"message\":\"hi\"}").unwrap_err().message, "missing recipient in payload");
    assert_eq!(h.read_payload("{\"recipient\":\"r\"}").unwrap_err().message, "missing message in payload");
}

#[test]
fn failure_errors_are_retryable() {
    let e = OrderHandler.failure("o-9");
    assert!(e.retryable);
    assert_eq!(e.message, "payment gateway timeout for order o-9");
    let e = PaymentHandler.failure("p-1");
    assert_eq!(e.message, "payment processor unavailable for payment p-1");
    let e = NotificationHandler.failure("bob");
    assert_eq!(e.message, "notification service unavailable for bob");
    assert!(e.retryable);
}
