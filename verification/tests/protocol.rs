use rustsmb_server::error::HandlerError;
use rustsmb_server::protocol::dialect::SmbDialect;
use rustsmb_server::protocol::header::{
    build_response_header, has_magic, Smb2Command, Smb2Flags, Smb2Header,
};
use rustsmb_server::protocol::status::NtStatus;
use rustsmb_server::text::{lease_key_text, random_guid};

fn sample() -> Smb2Header {
    Smb2Header {
        structure_size: 64,
        credit_charge: 3,
        status: 0x1122_3344,
        command: Smb2Command::Lock,
        credits: 9,
        flags: Smb2Flags(Smb2Flags::SIGNED),
        next_command: 80,
        message_id: 0x0102_0304_0506_0708,
        async_id: 6,
        tree_id: 7,
        session_id: 8,
        signature: [5; 16],
    }
}

#[test]
fn headers_round_trip() {
    let mut bytes = Vec::new();
    sample().write(&mut bytes);
    assert_eq!(bytes.len(), 64);
    assert!(has_magic(&bytes));
    let read = Smb2Header::parse(&bytes).unwrap();
    let mut again = Vec::new();
    read.write(&mut again);
    assert_eq!(bytes, again);
    assert_eq!(read.message_id, 0x0102_0304_0506_0708);
    assert!(Smb2Header::parse(&bytes[..63]).is_none());
    bytes[12] = 0x55;
    assert!(Smb2Header::parse(&bytes).is_none(), "there is no such command");
}

#[test]
fn a_response_header_answers_the_request() {
    let answer = build_response_header(&sample(), NtStatus::AccessDenied, 4);
    assert_eq!(answer.status, 0xC0000022);
    assert_eq!(answer.command, Smb2Command::Lock);
    assert_eq!(answer.message_id, sample().message_id);
    assert_eq!((answer.tree_id, answer.session_id), (7, 8));
    assert_eq!(answer.flags.0, Smb2Flags::SERVER_TO_REDIR);
    assert_eq!((answer.credits, answer.next_command), (4, 0));
    assert_eq!(answer.signature, [0; 16]);
}

#[test]
fn commands_have_codes() {
    for code in 0..=18u16 {
        assert_eq!(Smb2Command::from_code(code).unwrap().code(), code);
    }
    assert!(Smb2Command::from_code(19).is_none());
}

#[test]
fn dialects_are_ordered() {
    assert!(SmbDialect::Smb302.at_least(SmbDialect::Smb300));
    assert!(!SmbDialect::Smb210.at_least(SmbDialect::Smb300));
    assert_eq!(SmbDialect::Smb311.revision(), 0x0311);
}

#[test]
fn errors_have_statuses_and_words() {
    let io = HandlerError::from(std::io::Error::new(std::io::ErrorKind::Other, "cable"));
    assert_eq!(io.status(), NtStatus::InternalError);
    assert_eq!(io.message(), "I/O error: cable");
    let vfs = HandlerError::Vfs("gone".to_string());
    assert_eq!(vfs.status(), NtStatus::ObjectNameNotFound);
    assert_eq!(vfs.message(), "VFS error: gone");
    let protocol = HandlerError::Protocol("short".to_string());
    assert_eq!(protocol.status(), NtStatus::InvalidParameter);
    assert_eq!(protocol.message(), "Protocol error: short");
    let auth = HandlerError::Auth("who".to_string());
    assert_eq!(auth.status(), NtStatus::LogonFailure);
    let internal = HandlerError::Internal("down".to_string());
    assert_eq!(internal.status(), NtStatus::InternalError);
    assert_eq!(internal.message(), "Internal error: down");
    let status = HandlerError::Status(NtStatus::FileClosed);
    assert_eq!(status.status(), NtStatus::FileClosed);
    assert!(status.message().starts_with("Status: "));
}

#[test]
fn keys_are_written_in_hexadecimal() {
    let mut key = [0u8; 16];
    key[0] = 0xAB;
    key[15] = 0x0F;
    assert_eq!(lease_key_text(&key), "ab00000000000000000000000000000f");
    assert_ne!(random_guid(), random_guid());
}
