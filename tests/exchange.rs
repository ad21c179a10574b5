use hf2::{
    decode_reply, finish_exchange, fragment, prepare, BinInfoMode, BinInfoResult,
    ChksumPagesCommand, ChksumPagesResult, Command, CommandId, CommandResponse,
    CommandResponseStatus, DmesgResult, Error, InfoResult, Limits, ReadWordsCommand,
    ReadWordsResult, Reassembler, Reply, Request, TagCounter, WriteFlashPageCommand,
    WriteWordsCommand,
};

const LIMITS: Limits = Limits { flash_page_size: 256, max_message_size: 64 };

fn response(tag: u16, status: u8, payload: &[u8]) -> Vec<u8> {
    let mut r = vec![(tag & 0xFF) as u8, (tag >> 8) as u8, status, 0, 0, 0, 0, 0];
    r.extend_from_slice(payload);
    r
}

fn bin_info_payload() -> Vec<u8> {
    vec![0x02, 0, 0, 0, 0x00, 0x01, 0, 0, 0x40, 0, 0, 0, 0x00, 0x10, 0, 0]
}

/// Plays one exchange against a device that answers with `reply_frames`,
/// and returns the frames the host wrote with the outcome.
fn run(
    req: &Request,
    tag: u16,
    limits: &Limits,
    reply_frames: &[Vec<u8>],
) -> (Vec<Vec<u8>>, Result<Reply, Error>) {
    let written = match prepare(req, tag, limits) {
        Ok(f) => f,
        Err(e) => return (vec![], Err(e)),
    };
    let mut r = Reassembler::new(limits.max_message_size as usize);
    for f in reply_frames {
        match r.push(f) {
            Err(e) => return (written, Err(e)),
            Ok(true) => break,
            Ok(false) => {}
        }
    }
    if !r.is_complete() {
        return (written, Err(Error::Truncated));
    }
    let bytes = r.into_bytes();
    (written, finish_exchange(req, tag, &bytes))
}

#[test]
fn command_header_layout() {
    let c = Command { command_id: CommandId::BinInfo, tag: 1 };
    assert_eq!(c.encode(&[]), vec![1, 0, 0, 0, 1, 0, 0, 0]);
    let c = Command { command_id: CommandId::Dmesg, tag: 0x1234 };
    assert_eq!(c.encode(&[9, 8]), vec![0x10, 0, 0, 0, 0x34, 0x12, 0, 0, 9, 8]);
    assert_eq!(CommandId::Checksum.code(), 7);
}

#[test]
fn bin_info_end_to_end() {
    let reply = response(1, 0, &bin_info_payload());
    let (written, out) = run(&Request::BinInfo, 1, &LIMITS, &fragment(&reply));
    assert_eq!(written.len(), 1);
    assert_eq!(&written[0][..9], &[0x48, 1, 0, 0, 0, 1, 0, 0, 0]);
    assert_eq!(
        out,
        Ok(Reply::BinInfo(BinInfoResult {
            mode: BinInfoMode::User,
            flash_page_size: 256,
            flash_num_pages: 64,
            max_message_size: 4096,
            family_id: None,
        }))
    );
}

#[test]
fn info_end_to_end_over_several_frames() {
    let text = "UF2 Bootloader v3.0\nModel: Test Board\nBoard-ID: TEST-0001-RevA\nDate: 2020\n";
    let reply = response(5, 0, text.as_bytes());
    let frames = fragment(&reply);
    assert_eq!(frames.len(), 2);
    let limits = Limits { flash_page_size: 256, max_message_size: 4096 };
    let (_, out) = run(&Request::Info, 5, &limits, &frames);
    assert_eq!(out, Ok(Reply::Info(InfoResult { info: text.to_string() })));
}

#[test]
fn tag_mismatch_is_sequence() {
    let reply = response(2, 0, &bin_info_payload());
    let (_, out) = run(&Request::BinInfo, 1, &LIMITS, &fragment(&reply));
    assert_eq!(out, Err(Error::Sequence));
}

#[test]
fn parse_error_status_is_malformed_request() {
    for payload in [vec![], bin_info_payload(), vec![0xFF; 3]] {
        assert_eq!(
            finish_exchange(&Request::BinInfo, 1, &response(1, 1, &payload)),
            Err(Error::MalformedRequest)
        );
        assert_eq!(
            finish_exchange(&Request::Info, 1, &response(9, 1, &payload)),
            Err(Error::MalformedRequest)
        );
    }
}

#[test]
fn execution_error_status_is_malformed_request() {
    assert_eq!(
        finish_exchange(&Request::BinInfo, 4, &response(3, 2, &bin_info_payload())),
        Err(Error::MalformedRequest)
    );
    assert_eq!(
        finish_exchange(&Request::StartFlash, 3, &response(3, 2, &[])),
        Err(Error::MalformedRequest)
    );
}

#[test]
fn unknown_status_is_refused() {
    assert_eq!(
        finish_exchange(&Request::StartFlash, 3, &response(3, 7, &[])),
        Err(Error::UnknownStatus)
    );
}

#[test]
fn response_header_decoding() {
    assert_eq!(CommandResponse::decode(&[1, 0, 0, 0, 0, 0, 0]), Err(Error::Truncated));
    assert_eq!(
        CommandResponse::decode(&[0x34, 0x12, 2, 9, 0, 0, 0, 0, 5]),
        Ok((
            CommandResponse { tag: 0x1234, status: CommandResponseStatus::ExecutionError, status_info: 9 },
            8
        ))
    );
    assert_eq!(CommandResponseStatus::from_wire(3), Err(Error::UnknownStatus));
}

#[test]
fn ack_for_start_flash() {
    assert_eq!(finish_exchange(&Request::StartFlash, 3, &response(3, 0, &[])), Ok(Reply::Ack));
}

#[test]
fn bin_info_optional_family_id() {
    let mut b = bin_info_payload();
    let r = BinInfoResult::decode(&b).unwrap();
    assert_eq!(r.family_id, None);
    assert_eq!(r.mode, BinInfoMode::User);
    b.extend_from_slice(&[0x78, 0x56, 0x34, 0x12]);
    assert_eq!(BinInfoResult::decode(&b).unwrap().family_id, Some(0x1234_5678));
    assert_eq!(BinInfoResult::decode(&b[..15]), Err(Error::Truncated));
    assert_eq!(BinInfoResult::decode(&b[..18]).unwrap().family_id, None);
}

#[test]
fn bin_info_modes() {
    let mut b = bin_info_payload();
    b[0] = 1;
    assert_eq!(BinInfoResult::decode(&b).unwrap().mode, BinInfoMode::Bootloader);
    b[0] = 3;
    assert_eq!(BinInfoResult::decode(&b), Err(Error::UnknownMode));
}

#[test]
fn text_results() {
    assert_eq!(InfoResult::decode(b"abc"), Ok(InfoResult { info: "abc".to_string() }));
    assert_eq!(InfoResult::decode(&[0x61, 0xFF]), Err(Error::Encoding));
    assert_eq!(DmesgResult::decode("ok é".as_bytes()), Ok(DmesgResult { logs: "ok é".to_string() }));
    assert_eq!(DmesgResult::decode(&[0xC3]), Err(Error::Encoding));
    assert_eq!(InfoResult::decode(&[]), Ok(InfoResult { info: String::new() }));
}

#[test]
fn checksum_and_word_results() {
    let b = [0x34, 0x12, 0xCD, 0xAB, 0xEE];
    assert_eq!(
        ChksumPagesResult::decode(&b, 2),
        Ok(ChksumPagesResult { chksums: vec![0x1234, 0xABCD] })
    );
    assert_eq!(ChksumPagesResult::decode(&b, 3), Err(Error::Truncated));
    let w = [1, 0, 0, 0, 0x78, 0x56, 0x34, 0x12];
    assert_eq!(ReadWordsResult::decode(&w, 2), Ok(ReadWordsResult { words: vec![1, 0x1234_5678] }));
    assert_eq!(ReadWordsResult::decode(&w, 3), Err(Error::Truncated));
    let req = Request::ReadWords(ReadWordsCommand { target_addr: 0, num_words: 1 });
    assert_eq!(decode_reply(&req, &w), Ok(Reply::ReadWords(ReadWordsResult { words: vec![1] })));
}

#[test]
fn checksum_bound_is_checked_before_sending() {
    // 64 / 2 - 2 = 30 pages at most.
    let too_many = Request::ChecksumPages(ChksumPagesCommand { target_addr: 0, num_pages: 31 });
    assert_eq!(prepare(&too_many, 1, &LIMITS), Err(Error::InvalidArgument));
    let (written, out) = run(&too_many, 1, &LIMITS, &[]);
    assert!(written.is_empty());
    assert_eq!(out, Err(Error::InvalidArgument));
    let ok = Request::ChecksumPages(ChksumPagesCommand { target_addr: 0x2000, num_pages: 30 });
    let frames = prepare(&ok, 1, &LIMITS).unwrap();
    assert_eq!(
        &frames[0][..17],
        &[0x50, 7, 0, 0, 0, 1, 0, 0, 0, 0x00, 0x20, 0, 0, 30, 0, 0, 0]
    );
    let tiny = Limits { flash_page_size: 256, max_message_size: 3 };
    let zero = Request::ChecksumPages(ChksumPagesCommand { target_addr: 0, num_pages: 0 });
    assert_eq!(prepare(&zero, 1, &tiny), Err(Error::InvalidArgument));
}

#[test]
fn write_flash_page_needs_a_whole_page() {
    let limits = Limits { flash_page_size: 4, max_message_size: 64 };
    let bad = Request::WriteFlashPage(WriteFlashPageCommand { target_addr: 0, data: vec![1, 2, 3] });
    assert_eq!(prepare(&bad, 1, &limits), Err(Error::InvalidArgument));
    let good = Request::WriteFlashPage(WriteFlashPageCommand {
        target_addr: 0x100,
        data: vec![1, 2, 3, 4],
    });
    assert_eq!(good.payload(&limits), Ok(vec![0, 1, 0, 0, 1, 2, 3, 4]));
}

#[test]
fn word_commands_need_alignment() {
    let bad = Request::ReadWords(ReadWordsCommand { target_addr: 2, num_words: 1 });
    assert_eq!(prepare(&bad, 1, &LIMITS), Err(Error::InvalidArgument));
    let bad = Request::WriteWords(WriteWordsCommand { target_addr: 6, words: vec![1] });
    assert_eq!(bad.payload(&LIMITS), Err(Error::InvalidArgument));
    let good = Request::WriteWords(WriteWordsCommand { target_addr: 8, words: vec![0x0403_0201, 5] });
    assert_eq!(
        good.payload(&LIMITS),
        Ok(vec![8, 0, 0, 0, 2, 0, 0, 0, 1, 2, 3, 4, 5, 0, 0, 0])
    );
}

#[test]
fn message_longer_than_device_accepts_overflows() {
    let limits = Limits { flash_page_size: 60, max_message_size: 64 };
    let req = Request::WriteFlashPage(WriteFlashPageCommand { target_addr: 0, data: vec![0; 60] });
    assert_eq!(prepare(&req, 1, &limits), Err(Error::Overflow));
    let wide = Limits { flash_page_size: 60, max_message_size: 72 };
    assert_eq!(prepare(&req, 1, &wide).unwrap().len(), 2);
}

#[test]
fn resets_expect_no_reply() {
    assert!(!Request::ResetIntoApp.expects_reply());
    assert!(!Request::ResetIntoBootloader.expects_reply());
    assert!(Request::BinInfo.expects_reply());
    assert_eq!(Request::ResetIntoApp.id(), CommandId::ResetIntoApp);
}

#[test]
fn tags_wrap_at_sixteen_bits() {
    let mut t = TagCounter::new();
    assert_eq!(t.allocate(), 1);
    assert_eq!(t.allocate(), 2);
    let mut t = TagCounter { next: 0xFFFF };
    assert_eq!(t.allocate(), 0xFFFF);
    assert_eq!(t.allocate(), 0);
}

#[test]
fn parse_errors_are_classified() {
    assert!(Error::Truncated.is_parse());
    assert!(Error::Encoding.is_parse());
    assert!(!Error::Sequence.is_parse());
    assert!(!Error::Transmission.is_parse());
}
