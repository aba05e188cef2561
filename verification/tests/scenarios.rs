//! End-to-end request scenarios against the registry.

use http_metrics::classify::{Class, DefaultClassify, Trailers};
use http_metrics::registry::Registry;
use http_metrics::stage::Service;

fn sample_count(reg: &Registry, k: u64, s: Option<u16>) -> u64 {
    reg.get_bucket_counts(k, s)
        .expect("record")
        .iter()
        .copied()
        .sum()
}

#[test]
fn empty_body_success() {
    let mut reg = Registry::new(vec![50, 1000]);
    let svc = Service::new(&mut reg, 1);
    let (_rb, fut) = svc.call::<DefaultClassify>(&mut reg, true, None, 100);
    assert_eq!(reg.get_total(1), Some(1));
    let mut body = fut.on_response(200);
    body.on_drop(&mut reg, 130);
    assert_eq!(reg.get_total(1), Some(1));
    assert_eq!(sample_count(&reg, 1, Some(200)), 1);
    assert_eq!(reg.get_latency_sum(1, Some(200)), 30);
    assert_eq!(reg.get_class_count(1, Some(200), Class::Success), 1);
    assert_eq!(reg.get_class_count(1, Some(200), Class::Failure(0)), 0);
}

#[test]
fn streaming_success_with_trailers() {
    let mut reg = Registry::new(vec![50, 1000]);
    let svc = Service::new(&mut reg, 2);
    let (mut rb, fut) = svc.call::<DefaultClassify>(&mut reg, false, None, 1000);
    assert_eq!(reg.get_total(2), Some(0));
    rb.on_data(&mut reg, 1001);
    assert_eq!(reg.get_total(2), Some(1));
    rb.on_data(&mut reg, 1002);
    rb.on_data(&mut reg, 1003);
    assert_eq!(reg.get_total(2), Some(1));
    let mut body = fut.on_response(200);
    body.on_data(&mut reg, 1040);
    assert_eq!(sample_count(&reg, 2, Some(200)), 1);
    assert_eq!(reg.get_latency_sum(2, Some(200)), 40);
    for t in [1050, 1060, 1070, 1080] {
        body.on_data(&mut reg, t);
    }
    assert_eq!(sample_count(&reg, 2, Some(200)), 1);
    assert_eq!(reg.get_latency_sum(2, Some(200)), 40);
    body.on_trailers(&mut reg, Some(Trailers { grpc_status: Some(0) }), 1090);
    assert_eq!(reg.get_class_count(2, Some(200), Class::Success), 1);
    assert_eq!(reg.get_total(2), Some(1));
    // explicit completion already happened: a later drop changes nothing
    body.on_drop(&mut reg, 2000);
    assert_eq!(sample_count(&reg, 2, Some(200)), 1);
    assert_eq!(reg.get_class_count(2, Some(200), Class::Success), 1);
}

#[test]
fn response_body_mid_stream_error() {
    let mut reg = Registry::new(vec![50, 1000]);
    let svc = Service::new(&mut reg, 3);
    let (mut rb, fut) = svc.call::<DefaultClassify>(&mut reg, false, None, 500);
    rb.on_data(&mut reg, 501);
    let mut body = fut.on_response(200);
    body.on_data(&mut reg, 520);
    body.on_error(&mut reg, 530);
    assert_eq!(reg.get_total(3), Some(1));
    assert_eq!(sample_count(&reg, 3, Some(200)), 1);
    assert_eq!(reg.get_latency_sum(3, Some(200)), 20);
    assert_eq!(reg.get_class_count(3, Some(200), Class::Failure(0)), 1);
    assert_eq!(reg.get_class_count(3, Some(200), Class::Success), 0);
    // the drop of the failed body records nothing further
    body.on_drop(&mut reg, 540);
    assert_eq!(sample_count(&reg, 3, Some(200)), 1);
    assert_eq!(reg.get_class_count(3, Some(200), Class::Failure(0)), 1);
}

#[test]
fn pre_head_inner_error() {
    let mut reg = Registry::new(vec![50, 1000]);
    let svc = Service::new(&mut reg, 4);
    let (_rb, fut) = svc.call::<DefaultClassify>(&mut reg, true, None, 50);
    assert_eq!(reg.get_total(4), Some(1));
    fut.on_error(&mut reg, 70);
    assert_eq!(reg.get_total(4), Some(1));
    assert_eq!(reg.get_class_count(4, None, Class::Failure(0)), 1);
    assert_eq!(sample_count(&reg, 4, None), 0);
    assert_eq!(sample_count(&reg, 4, Some(200)), 0);
}

#[test]
fn cancellation_after_two_frames() {
    let mut reg = Registry::new(vec![50, 1000]);
    let svc = Service::new(&mut reg, 5);
    let (mut rb, fut) = svc.call::<DefaultClassify>(&mut reg, false, None, 10);
    rb.on_data(&mut reg, 11);
    let mut body = fut.on_response(200);
    body.on_data(&mut reg, 25);
    body.on_data(&mut reg, 35);
    body.on_drop(&mut reg, 45);
    assert_eq!(reg.get_total(5), Some(1));
    assert_eq!(sample_count(&reg, 5, Some(200)), 1);
    assert_eq!(reg.get_latency_sum(5, Some(200)), 15);
    assert_eq!(reg.get_class_count(5, Some(200), Class::Success), 1);
    // dropping twice is idempotent
    body.on_drop(&mut reg, 55);
    assert_eq!(sample_count(&reg, 5, Some(200)), 1);
    assert_eq!(reg.get_class_count(5, Some(200), Class::Success), 1);
}

#[test]
fn hundred_requests_same_target() {
    let mut reg = Registry::new(vec![50, 1000]);
    let svc = Service::new(&mut reg, 6);
    for i in 0..100u64 {
        let (_rb, fut) = svc.call::<DefaultClassify>(&mut reg, true, None, i);
        let mut body = fut.on_response(200);
        body.on_drop(&mut reg, i + 1);
    }
    assert_eq!(reg.get_total(6), Some(100));
    assert_eq!(reg.get_class_count(6, Some(200), Class::Success), 100);
    assert_eq!(sample_count(&reg, 6, Some(200)), 100);
}

#[test]
fn two_interleaved_requests_lose_no_update() {
    let mut reg = Registry::new(vec![50, 1000]);
    let svc = Service::new(&mut reg, 7);
    let before = reg.get_total(7).unwrap();
    let (mut rb_a, fut_a) = svc.call::<DefaultClassify>(&mut reg, false, None, 100);
    let (mut rb_b, fut_b) = svc.call::<DefaultClassify>(&mut reg, false, None, 101);
    rb_a.on_data(&mut reg, 102);
    rb_b.on_data(&mut reg, 103);
    let mut body_b = fut_b.on_response(200);
    let mut body_a = fut_a.on_response(200);
    body_b.on_data(&mut reg, 110);
    body_a.on_data(&mut reg, 111);
    body_a.on_trailers(&mut reg, None, 120);
    body_b.on_trailers(&mut reg, None, 121);
    assert_eq!(reg.get_total(7), Some(before + 2));
    assert_eq!(reg.get_class_count(7, Some(200), Class::Success), 2);
    assert_eq!(sample_count(&reg, 7, Some(200)), 2);
}

#[test]
fn poisoned_record_drops_observations() {
    let mut reg = Registry::new(vec![50, 1000]);
    let svc = Service::new(&mut reg, 8);
    reg.poison_record(8);
    let last_update = reg.get_last_update(8);
    let (mut rb, fut) = svc.call::<DefaultClassify>(&mut reg, false, None, 10);
    rb.on_data(&mut reg, 11);
    let mut body = fut.on_response(200);
    body.on_data(&mut reg, 20);
    body.on_trailers(&mut reg, None, 30);
    assert_eq!(reg.get_total(8), Some(0));
    assert_eq!(sample_count(&reg, 8, Some(200)), 0);
    assert_eq!(reg.get_class_count(8, Some(200), Class::Success), 0);
    assert_eq!(reg.get_last_update(8), last_update);
}

#[test]
fn poisoned_registry_resolves_nothing() {
    let mut reg = Registry::new(vec![50, 1000]);
    reg.poison();
    let svc = Service::new(&mut reg, 9);
    assert_eq!(svc.metrics, None);
    let (mut rb, fut) = svc.call::<DefaultClassify>(&mut reg, true, None, 10);
    rb.on_data(&mut reg, 11);
    let mut body = fut.on_response(200);
    body.on_data(&mut reg, 20);
    body.on_drop(&mut reg, 30);
    assert!(!reg.contains(9));
    assert_eq!(reg.targets().len(), 0);
}
