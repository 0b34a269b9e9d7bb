use rustsmb_server::error::HandlerError;
use rustsmb_server::handler::common::{build_response, handle_id, file_id};
use rustsmb_server::handler::compound::{
    compound_padding, consumed_credits, fileid_body_offset, parse_compound_offsets,
    process_compound_request, resolve_related_header, substitute_file_id, CompoundContext,
    CompoundResult, CompoundRun, CompoundStart, CompoundStep, FileId,
};
use rustsmb_server::handler::compound_response::{
    combine_compound_responses, link_response, CombineStart, CombineStep,
};
use rustsmb_server::handler::message::{process_and_respond, process_message, MessageKind};
use rustsmb_server::handler::signing::{SignStep, SigningKeys};
use rustsmb_server::protocol::header::{Smb2Command, Smb2Flags, Smb2Header};
use rustsmb_server::protocol::status::NtStatus;

const SMB2_MAGIC: [u8; 4] = [0xFE, b'S', b'M', b'B'];

fn request(command: Smb2Command, session_id: u64, tree_id: u32) -> Smb2Header {
    Smb2Header {
        structure_size: 64,
        credit_charge: 1,
        status: 0,
        command,
        credits: 1,
        flags: Smb2Flags(0),
        next_command: 0,
        message_id: 5,
        async_id: 0,
        tree_id,
        session_id,
        signature: [0; 16],
    }
}

fn related(command: Smb2Command) -> Smb2Header {
    let mut header = request(command, u64::MAX, u32::MAX);
    header.flags = Smb2Flags(Smb2Flags::RELATED_OPERATIONS);
    header
}

/// Strings the commands together, each with a body of the given length.
fn compound(commands: &[(Smb2Header, usize)]) -> Vec<u8> {
    let mut message = Vec::new();
    for (i, (header, body)) in commands.iter().enumerate() {
        let mut header = *header;
        if i + 1 < commands.len() {
            header.next_command = (64 + body) as u32;
        }
        header.write(&mut message);
        message.extend_from_slice(&vec![0u8; *body]);
    }
    message
}

fn start(message: Vec<u8>) -> CompoundRun {
    match process_compound_request(message).unwrap() {
        CompoundStart::Run(run) => run,
        CompoundStart::Single(_) => panic!("several commands expected"),
    }
}

fn ready(step: SignStep) -> Vec<u8> {
    match step {
        SignStep::Ready(message) => message,
        SignStep::Sign(_) => panic!("no key, no signature"),
    }
}

#[test]
fn test_parse_compound_offsets_single_command() {
    // A single command has NextCommand = 0
    let mut msg = vec![0u8; 100];
    msg[0..4].copy_from_slice(&SMB2_MAGIC);
    // NextCommand at offset 20 is already 0

    let offsets = parse_compound_offsets(&msg);
    assert_eq!(offsets, vec![0]);
}

#[test]
fn test_parse_compound_offsets_two_commands() {
    // Two commands: first has NextCommand = 64, second has NextCommand = 0
    let mut msg = vec![0u8; 128];
    msg[0..4].copy_from_slice(&SMB2_MAGIC);
    msg[20..24].copy_from_slice(&64u32.to_le_bytes()); // NextCommand = 64

    msg[64..68].copy_from_slice(&SMB2_MAGIC);
    // NextCommand at offset 64+20 = 84 is already 0

    let offsets = parse_compound_offsets(&msg);
    assert_eq!(offsets, vec![0, 64]);
}

#[test]
fn test_parse_compound_offsets_three_commands() {
    // Three commands chained together
    let mut msg = vec![0u8; 256];

    // First command at offset 0, NextCommand = 80
    msg[0..4].copy_from_slice(&SMB2_MAGIC);
    msg[20..24].copy_from_slice(&80u32.to_le_bytes());

    // Second command at offset 80, NextCommand = 88
    msg[80..84].copy_from_slice(&SMB2_MAGIC);
    msg[100..104].copy_from_slice(&88u32.to_le_bytes()); // 80 + 20 = 100

    // Third command at offset 168, NextCommand = 0
    msg[168..172].copy_from_slice(&SMB2_MAGIC);
    // NextCommand at 168+20=188 is already 0

    let offsets = parse_compound_offsets(&msg);
    assert_eq!(offsets, vec![0, 80, 168]);
}

#[test]
fn test_compound_padding_alignment() {
    // Test 8-byte alignment padding
    assert_eq!(compound_padding(0), 0); // Already aligned
    assert_eq!(compound_padding(8), 0); // Already aligned
    assert_eq!(compound_padding(16), 0); // Already aligned
    assert_eq!(compound_padding(64), 0); // Header size, aligned

    assert_eq!(compound_padding(1), 7); // Need 7 bytes padding
    assert_eq!(compound_padding(7), 1); // Need 1 byte padding
    assert_eq!(compound_padding(65), 7); // 65 -> 72, need 7
    assert_eq!(compound_padding(66), 6); // 66 -> 72, need 6
}

#[test]
fn test_compound_context_related_session_resolution() {
    // Test session ID resolution for related requests
    let mut ctx = CompoundContext::related(3);
    ctx.set_session_id(12345);

    // First command uses its own session ID
    assert_eq!(ctx.resolve_session_id(999), Some(999));

    ctx.advance(CompoundResult::success());

    // Subsequent commands with sentinel use inherited session
    assert_eq!(ctx.resolve_session_id(u64::MAX), Some(12345));

    // Subsequent commands with explicit ID still use their own
    assert_eq!(ctx.resolve_session_id(555), Some(555));
}

#[test]
fn test_compound_context_related_tree_resolution() {
    // Test tree ID resolution for related requests
    let mut ctx = CompoundContext::related(2);
    ctx.set_tree_id(100);
    ctx.advance(CompoundResult::success());

    // Sentinel value resolves to inherited tree ID
    assert_eq!(ctx.resolve_tree_id(u32::MAX), Some(100));

    // Explicit value is used as-is
    assert_eq!(ctx.resolve_tree_id(200), Some(200));
}

#[test]
fn test_compound_context_file_id_resolution() {
    // Test file ID resolution for related requests
    let mut ctx = CompoundContext::related(2);

    // First command (CREATE) produces a file ID
    let create_file_id = FileId::new(0x1111, 0x2222);
    ctx.advance(CompoundResult::success_with_file(create_file_id));

    // Second command with sentinel uses CREATE's file ID
    let sentinel = FileId::new(FileId::RELATED_SENTINEL, FileId::RELATED_SENTINEL);
    let resolved = ctx.resolve_file_id(sentinel);
    assert!(resolved.is_some());
    let resolved = resolved.unwrap();
    assert_eq!(resolved.persistent, 0x1111);
    assert_eq!(resolved.volatile, 0x2222);
}

#[test]
fn test_compound_context_error_propagation() {
    // Test that errors are detected for propagation
    let mut ctx = CompoundContext::related(3);

    ctx.advance(CompoundResult::success());
    assert!(!ctx.has_previous_failure());

    ctx.advance(CompoundResult::failure(0xC0000022)); // ACCESS_DENIED
    assert!(ctx.has_previous_failure());
    assert_eq!(ctx.last_failure_status(), Some(0xC0000022));
}

#[test]
fn test_compound_context_unrelated_no_resolution() {
    // Unrelated compound requests don't resolve sentinel values
    let mut ctx = CompoundContext::unrelated(2);
    ctx.set_session_id(12345);
    ctx.advance(CompoundResult::success());

    // Even with sentinel, unrelated requests should use the request value
    // (the caller should NOT send sentinel for unrelated requests, but if they
    // do, we still use it - it will fail validation elsewhere)
    assert_eq!(ctx.resolve_session_id(u64::MAX), Some(u64::MAX));
}

#[test]
fn offset_outside_the_message_ends_the_chain() {
    let mut msg = vec![0u8; 128];
    msg[20..24].copy_from_slice(&65u32.to_le_bytes());
    assert_eq!(parse_compound_offsets(&msg), vec![0]);
    assert_eq!(parse_compound_offsets(&[]), vec![0]);
    msg[20..24].copy_from_slice(&u32::MAX.to_le_bytes());
    assert_eq!(parse_compound_offsets(&msg), vec![0]);
}

#[test]
fn related_header_is_filled_in() {
    let mut ctx = CompoundContext::related(2);
    assert!(ctx.is_first());
    ctx.advance(CompoundResult::success());
    assert!(!ctx.is_first());
    let header = related(Smb2Command::Close);
    match resolve_related_header(&header, &ctx) {
        Err(HandlerError::Status(s)) => assert_eq!(s, NtStatus::InvalidParameter),
        _ => panic!("no session to inherit"),
    }
    ctx.set_session_id(7);
    assert!(resolve_related_header(&header, &ctx).is_err(), "no tree to inherit");
    ctx.set_tree_id(3);
    let resolved = resolve_related_header(&header, &ctx).unwrap();
    assert_eq!((resolved.session_id, resolved.tree_id), (7, 3));
}

#[test]
fn file_id_is_put_where_the_command_has_it() {
    assert_eq!(fileid_body_offset(Smb2Command::Close), Some(8));
    assert_eq!(fileid_body_offset(Smb2Command::Read), Some(16));
    assert_eq!(fileid_body_offset(Smb2Command::QueryInfo), Some(24));
    assert_eq!(fileid_body_offset(Smb2Command::Create), None);

    let mut ctx = CompoundContext::related(2);
    ctx.advance(CompoundResult::success_with_file(FileId::new(0x0A, 0x0B)));
    let message = substitute_file_id(Smb2Command::Close, vec![0u8; 88], &ctx);
    assert_eq!(message[72], 0x0A);
    assert_eq!(message[80], 0x0B);
    let short = substitute_file_id(Smb2Command::Close, vec![0u8; 87], &ctx);
    assert_eq!(short, vec![0u8; 87]);
    let unrelated = CompoundContext::unrelated(2);
    let message = substitute_file_id(Smb2Command::Close, vec![0u8; 88], &unrelated);
    assert_eq!(message, vec![0u8; 88]);
}

#[test]
fn credits_are_charged_but_for_negotiate() {
    let mut header = request(Smb2Command::Read, 1, 1);
    header.credit_charge = 0;
    assert_eq!(consumed_credits(&header), Some(1));
    header.credit_charge = 4;
    assert_eq!(consumed_credits(&header), Some(4));
    header.command = Smb2Command::Negotiate;
    assert_eq!(consumed_credits(&header), None);
}

#[test]
fn close_follows_create_to_its_file() {
    let keys = SigningKeys::new();
    let create = request(Smb2Command::Create, 7, 3);
    let run = start(compound(&[(create, 56), (related(Smb2Command::Close), 24)]));
    assert!(run.ctx.related);

    let (run, header) = match run.step(&keys) {
        CompoundStep::Dispatch { run, header, message } => {
            assert_eq!(message.len(), 120);
            (run, header)
        }
        _ => panic!("the first command is dispatched"),
    };
    let mut body = vec![0u8; 88];
    let (persistent, volatile) = file_id(handle_id(0x1111, 0x2222));
    body[64..72].copy_from_slice(&persistent.to_le_bytes());
    body[72..80].copy_from_slice(&volatile.to_le_bytes());
    let response = build_response(&header, NtStatus::Success, 1, &body);
    let run = match run.on_result(&header, Ok(response), &keys) {
        CompoundStep::Respond { run, response } => run.push(ready(response)),
        _ => panic!("the response is kept"),
    };

    let (run, header) = match run.step(&keys) {
        CompoundStep::Dispatch { run, header, message } => {
            assert_eq!(&message[72..80], &0x1111u64.to_le_bytes());
            assert_eq!(&message[80..88], &0x2222u64.to_le_bytes());
            (run, header)
        }
        _ => panic!("the second command is dispatched"),
    };
    assert_eq!((header.session_id, header.tree_id), (7, 3));
    let response = build_response(&header, NtStatus::Success, 1, &[0; 60]);
    let run = match run.on_result(&header, Ok(response), &keys) {
        CompoundStep::Respond { run, response } => run.push(ready(response)),
        _ => panic!("the response is kept"),
    };
    match run.step(&keys) {
        CompoundStep::Finish { responses, related } => {
            assert!(related);
            assert_eq!(responses.len(), 2);
        }
        _ => panic!("all commands are done"),
    }
}

#[test]
fn failure_reaches_the_commands_after_it() {
    let keys = SigningKeys::new();
    let create = request(Smb2Command::Create, 7, 3);
    let mut read = related(Smb2Command::Read);
    read.session_id = 7;
    read.tree_id = 3;
    let run = start(compound(&[(create, 8), (read, 8)]));
    let (run, header) = match run.step(&keys) {
        CompoundStep::Dispatch { run, header, .. } => (run, header),
        _ => panic!("the first command is dispatched"),
    };
    let failed = Err(HandlerError::Status(NtStatus::AccessDenied));
    let run = match run.on_result(&header, failed, &keys) {
        CompoundStep::Respond { run, response } => run.push(ready(response)),
        _ => panic!("an error response is kept"),
    };
    let run = match run.step(&keys) {
        CompoundStep::Respond { run, response } => {
            let response = ready(response);
            let header = Smb2Header::parse(&response).unwrap();
            assert_eq!(header.status, 0xC0000022);
            assert_eq!(header.command, Smb2Command::Read);
            assert_eq!(response.len(), 73);
            run.push(response)
        }
        _ => panic!("the second command is not dispatched"),
    };
    assert!(matches!(run.step(&keys), CompoundStep::Finish { .. }));
}

#[test]
fn failure_of_the_first_reaches_commands_that_name_no_session() {
    let keys = SigningKeys::new();
    let create = request(Smb2Command::Create, 7, 3);
    let mut read = related(Smb2Command::Read);
    read.message_id = 11;
    let mut close = related(Smb2Command::Close);
    close.message_id = 12;
    let run = start(compound(&[(create, 8), (read, 8), (close, 24)]));
    let mut run = match run.step(&keys) {
        CompoundStep::Dispatch { run, header, .. } => {
            let failed = Err(HandlerError::Status(NtStatus::AccessDenied));
            match run.on_result(&header, failed, &keys) {
                CompoundStep::Respond { run, response } => run.push(ready(response)),
                _ => panic!("an error response is kept"),
            }
        }
        _ => panic!("the first command is dispatched"),
    };
    for (command, message_id) in [(Smb2Command::Read, 11), (Smb2Command::Close, 12)] {
        run = match run.step(&keys) {
            CompoundStep::Respond { run, response } => {
                let response = ready(response);
                let header = Smb2Header::parse(&response).unwrap();
                assert_eq!(header.status, NtStatus::AccessDenied.code());
                assert_eq!((header.command, header.message_id), (command, message_id));
                assert_eq!((header.session_id, header.tree_id), (7, 3));
                run.push(response)
            }
            _ => panic!("the command is not dispatched"),
        };
    }
    match run.step(&keys) {
        CompoundStep::Finish { responses, .. } => assert_eq!(responses.len(), 3),
        _ => panic!("all commands are answered"),
    }
}

#[test]
fn unrelated_commands_do_not_fail_together() {
    let keys = SigningKeys::new();
    let first = request(Smb2Command::Echo, 1, 0);
    let second = request(Smb2Command::Echo, 2, 0);
    let run = start(compound(&[(first, 8), (second, 8)]));
    let run = match run.step(&keys) {
        CompoundStep::Dispatch { run, header, .. } => {
            match run.on_result(&header, Err(HandlerError::Vfs("gone".to_string())), &keys) {
                CompoundStep::Respond { run, response } => run.push(ready(response)),
                _ => panic!("an error response is kept"),
            }
        }
        _ => panic!("the first command is dispatched"),
    };
    match run.step(&keys) {
        CompoundStep::Dispatch { header, .. } => assert_eq!(header.session_id, 2),
        _ => panic!("the second command is dispatched"),
    }
}

#[test]
fn unreadable_second_header_is_an_error() {
    let mut message = compound(&[
        (request(Smb2Command::Echo, 1, 0), 8),
        (request(Smb2Command::Echo, 1, 0), 8),
    ]);
    message[72] = 0;
    match process_compound_request(message) {
        Err(HandlerError::Protocol(text)) => assert_eq!(text, "Failed to parse second header"),
        _ => panic!("the second header is needed"),
    }
}

#[test]
fn combined_responses_can_be_walked() {
    let keys = SigningKeys::new();
    let header = request(Smb2Command::Echo, 1, 0);
    let responses = vec![
        build_response(&header, NtStatus::Success, 1, &[4, 0, 0, 0]),
        build_response(&header, NtStatus::Success, 1, &[4, 0, 0, 0, 9]),
    ];
    let mut step = match combine_compound_responses(responses, true).unwrap() {
        CombineStart::Run(run) => run.step(&keys),
        CombineStart::Single(_) => panic!("two responses are combined"),
    };
    let combined = loop {
        match step {
            CombineStep::Append(run, response) => step = run.append(ready(response)).step(&keys),
            CombineStep::Done(combined) => break combined,
        }
    };
    assert_eq!(parse_compound_offsets(&combined), vec![0, 72]);
    let first = Smb2Header::parse(&combined).unwrap();
    assert_eq!(first.next_command, 72);
    assert!(!first.flags.is_related());
    let second = Smb2Header::parse(&combined[72..]).unwrap();
    assert!(second.flags.is_related());
    assert_eq!(second.next_command, 0);
    assert_eq!(&combined[136..141], &[4, 0, 0, 0, 9]);
}

#[test]
fn a_single_response_is_not_changed() {
    let response = build_response(&request(Smb2Command::Echo, 1, 0), NtStatus::Success, 1, &[1]);
    match combine_compound_responses(vec![response.clone()], true).unwrap() {
        CombineStart::Single(message) => assert_eq!(message, response),
        CombineStart::Run(_) => panic!("nothing to combine"),
    }
    assert!(combine_compound_responses(vec![], true).is_err());
}

#[test]
fn linking_pads_all_but_the_last() {
    let response = build_response(&request(Smb2Command::Echo, 1, 0), NtStatus::Success, 1, &[1]);
    let linked = link_response(response.clone(), false, true, false);
    assert_eq!(linked.padding, 7);
    assert_eq!(Smb2Header::parse(&linked.bytes).unwrap().next_command, 72);
    let last = link_response(response.clone(), false, false, true);
    assert_eq!(last.padding, 0);
    assert_eq!(last.bytes, response);
    assert!(!last.changed);
}

#[test]
fn messages_are_told_apart() {
    let single = compound(&[(request(Smb2Command::Echo, 1, 0), 8)]);
    assert!(matches!(process_message(&single), Ok(MessageKind::Single(_))));
    let several = compound(&[
        (request(Smb2Command::Echo, 1, 0), 8),
        (request(Smb2Command::Echo, 1, 0), 8),
    ]);
    assert!(matches!(process_message(&several), Ok(MessageKind::Compound)));
    assert!(matches!(process_message(&[0; 64]), Err(HandlerError::Protocol(_))));
    assert!(matches!(process_message(&[0; 10]), Err(HandlerError::Protocol(_))));
}

#[test]
fn errors_are_answered_with_their_status() {
    let keys = SigningKeys::new();
    let message = compound(&[(request(Smb2Command::Read, 9, 4), 8)]);
    let failed = Err(HandlerError::Status(NtStatus::FileClosed));
    let response = ready(process_and_respond(&message, failed, &keys).unwrap().unwrap());
    let header = Smb2Header::parse(&response).unwrap();
    assert_eq!(header.status, NtStatus::FileClosed.code());
    assert_eq!((header.session_id, header.tree_id), (9, 4));
    assert_eq!(header.message_id, 5);
}
