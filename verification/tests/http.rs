use flick_sync::http::{
    stream_plan, SeekTarget, StreamPlan,
    client_addr, is_safe, range_answer, ByteRangeResponse, ByteRangeSpec, IpAddress, RangeAnswer,
    StreamLimiter,
};

#[test]
fn whole_resource_without_range() {
    assert_eq!(range_answer(None, 100), RangeAnswer::Full { length: 100 });
}

#[test]
fn explicit_ranges_are_cut_to_the_resource() {
    assert_eq!(
        range_answer(Some(ByteRangeSpec::FromTo(10, 19)), 100),
        RangeAnswer::Partial { start: 10, length: 10, end: 19, instance_length: 100 }
    );
    assert_eq!(
        range_answer(Some(ByteRangeSpec::FromTo(90, 500)), 100),
        RangeAnswer::Partial { start: 90, length: 10, end: 99, instance_length: 100 }
    );
    assert_eq!(
        range_answer(Some(ByteRangeSpec::From(40)), 100),
        RangeAnswer::Partial { start: 40, length: 60, end: 99, instance_length: 100 }
    );
}

#[test]
fn ranges_past_the_end_are_refused() {
    assert_eq!(
        range_answer(Some(ByteRangeSpec::FromTo(100, 200)), 100),
        RangeAnswer::NotSatisfiable { instance_length: 100 }
    );
    assert_eq!(
        range_answer(Some(ByteRangeSpec::From(150)), 100),
        RangeAnswer::NotSatisfiable { instance_length: 100 }
    );
}

#[test]
fn suffix_ranges() {
    assert_eq!(
        range_answer(Some(ByteRangeSpec::Last(30)), 100),
        RangeAnswer::Partial { start: 70, length: 30, end: 99, instance_length: 100 }
    );
    assert_eq!(
        range_answer(Some(ByteRangeSpec::Last(300)), 100),
        RangeAnswer::Partial { start: 0, length: 100, end: 99, instance_length: 100 }
    );
}

#[test]
fn responses_stop_after_their_range() {
    let mut response = ByteRangeResponse::new(10);
    assert_eq!(response.after_read(0, 6), 6);
    assert_eq!(response.remaining, 4);
    assert!(!response.finished());
    assert_eq!(response.after_read(0, 8), 4);
    assert_eq!(response.remaining, 0);
    assert_eq!(response.total, 14);
    assert!(response.finished());
}

#[test]
fn limiter_cuts_the_last_chunk() {
    let mut limiter = StreamLimiter::new(100, 110);
    assert_eq!(limiter.on_chunk(6), 6);
    assert_eq!(limiter.remaining(), 4);
    assert_eq!(limiter.on_chunk(6), 4);
    assert!(limiter.done());
    assert_eq!(limiter.streamed(), 10);
}

#[test]
fn trusted_peers() {
    assert!(is_safe(IpAddress::V4(0x0a00_0001)));
    assert!(is_safe(IpAddress::V4(0xac10_0001)));
    assert!(!is_safe(IpAddress::V4(0xac20_0001)));
    assert!(is_safe(IpAddress::V4(0xc0a8_0101)));
    assert!(is_safe(IpAddress::V4(0x7f00_0001)));
    assert!(is_safe(IpAddress::V4(0xa9fe_0001)));
    assert!(!is_safe(IpAddress::V4(0x0808_0808)));
    assert!(is_safe(IpAddress::V6(1)));
    assert!(!is_safe(IpAddress::V6(2)));
}

#[test]
fn client_addresses() {
    let local = Some((IpAddress::V4(0x0a00_0001), "10.0.0.1:5000".to_string()));
    let remote = Some((IpAddress::V4(0x0808_0808), "8.8.8.8:5000".to_string()));
    assert_eq!(client_addr(local.clone(), Some("1.2.3.4".to_string())).as_deref(), Some("1.2.3.4"));
    assert_eq!(client_addr(remote, Some("1.2.3.4".to_string())).as_deref(), Some("8.8.8.8:5000"));
    assert_eq!(client_addr(local, None).as_deref(), Some("10.0.0.1:5000"));
    assert_eq!(client_addr(None, Some("1.2.3.4".to_string())), None);
}

#[test]
fn video_stream_plans() {
    assert_eq!(stream_plan(&[], 100), StreamPlan::Whole { length: 100 });
    assert_eq!(
        stream_plan(&[ByteRangeSpec::From(0), ByteRangeSpec::From(5)], 100),
        StreamPlan::Whole { length: 100 }
    );
    assert_eq!(
        stream_plan(&[ByteRangeSpec::From(10)], 100),
        StreamPlan::Partial {
            seek: SeekTarget::Start(10),
            range_first: 10,
            range_second: 99,
            instance_length: 100,
            body_length: 90,
            limit: None,
        }
    );
    assert_eq!(
        stream_plan(&[ByteRangeSpec::Last(30)], 100),
        StreamPlan::Partial {
            seek: SeekTarget::End(30),
            range_first: 70,
            range_second: 30,
            instance_length: 100,
            body_length: 30,
            limit: None,
        }
    );
    assert_eq!(stream_plan(&[ByteRangeSpec::Last(300)], 100), StreamPlan::NotFound);
    assert_eq!(
        stream_plan(&[ByteRangeSpec::FromTo(20, 29)], 100),
        StreamPlan::Partial {
            seek: SeekTarget::Start(20),
            range_first: 20,
            range_second: 29,
            instance_length: 100,
            body_length: 10,
            limit: Some(30),
        }
    );
}
