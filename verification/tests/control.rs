use sosistab_core::backhaul::ShardState;
use sosistab_core::crypto::{blake3_hash, blake3_keyed, pad, pad_decrypt, pad_encrypt, x25519_mul, PAD_TARGET};
use sosistab_core::exits::{pick_exit, ExitInfo};
use sosistab_core::handshake::{
    bytes32_eq, hello_timeout_secs, ClientHandshake, Cookie, HandshakeOutcome, BASEPOINT, DN_TAG,
    UP_TAG,
};
use sosistab_core::keepalive::{
    encode_auth, first_success, keepalive_step, parse_auth_reply, AuthToken, KeepaliveEvent,
    KeepaliveVerdict,
};
use sosistab_core::msg::{DataFrame, HandshakeFrame};
use sosistab_core::{to_ioerror, NetError};

#[test]
fn pad_length_is_constant_below_target() {
    let key = [7u8; 32];
    let short = pad_encrypt(&key, b"hi", PAD_TARGET);
    let longer = pad_encrypt(&key, &[5u8; 900], PAD_TARGET);
    assert_eq!(short.len(), longer.len());
    assert_eq!(short.len(), PAD_TARGET + 28);
    // past the target, frames grow with their content
    let big = pad_encrypt(&key, &[1u8; 1500], PAD_TARGET);
    assert_eq!(big.len(), 1502 + 28);
}

#[test]
fn pad_seal_round_trip() {
    let key = [3u8; 32];
    let msg = b"obfuscated transport".to_vec();
    let sealed = pad_encrypt(&key, &msg, PAD_TARGET);
    assert_ne!(&sealed[..], &msg[..]);
    assert_eq!(pad_decrypt(&key, &sealed), Some(msg));
    // the wrong key does not open it
    assert_eq!(pad_decrypt(&[4u8; 32], &sealed), None);
}

#[test]
fn pad_prefixes_length() {
    let padded = pad(b"abc", 10);
    assert_eq!(padded, vec![3, 0, b'a', b'b', b'c', 0, 0, 0, 0, 0]);
}

#[test]
fn data_frame_codec_round_trip() {
    let df = DataFrame {
        frame_no: 77,
        run_no: 5,
        run_idx: 2,
        data_shards: 16,
        parity_shards: 1,
        high_recv_frame_no: 1000,
        total_recv_frames: 999,
        body: vec![1, 2, 3],
    };
    let bytes = df.encode();
    assert_eq!(bytes.len(), 35 + 3);
    let back = DataFrame::decode(&bytes).expect("well-formed frame");
    assert_eq!(back.frame_no, 77);
    assert_eq!(back.run_no, 5);
    assert_eq!(back.run_idx, 2);
    assert_eq!(back.data_shards, 16);
    assert_eq!(back.parity_shards, 1);
    assert_eq!(back.high_recv_frame_no, 1000);
    assert_eq!(back.total_recv_frames, 999);
    assert_eq!(back.body, vec![1, 2, 3]);
    assert!(DataFrame::decode(&bytes[..34]).is_none());
}

#[test]
fn handshake_frame_codec_round_trip() {
    let hello = HandshakeFrame::ClientHello { long_pk: [1; 32], eph_pk: [2; 32], version: 1 };
    let bytes = hello.encode();
    assert_eq!(bytes.len(), 73);
    match HandshakeFrame::decode(&bytes) {
        Some(HandshakeFrame::ClientHello { long_pk, eph_pk, version }) => {
            assert_eq!(long_pk, [1; 32]);
            assert_eq!(eph_pk, [2; 32]);
            assert_eq!(version, 1);
        },
        _ => panic!("decoded to the wrong variant"),
    }
    let resume =
        HandshakeFrame::ClientResume { resume_token: vec![9, 9, 9], shard_id: 1 };
    let bytes = resume.encode();
    match HandshakeFrame::decode(&bytes) {
        Some(HandshakeFrame::ClientResume { resume_token, shard_id }) => {
            assert_eq!(resume_token, vec![9, 9, 9]);
            assert_eq!(shard_id, 1);
        },
        _ => panic!("decoded to the wrong variant"),
    }
    assert!(HandshakeFrame::decode(&[7u8, 0, 0]).is_none());
}

#[test]
fn x25519_agrees_both_ways() {
    let a = [11u8; 32];
    let b = [22u8; 32];
    let pub_a = x25519_mul(&a, &BASEPOINT);
    let pub_b = x25519_mul(&b, &BASEPOINT);
    assert_ne!(pub_a, a);
    assert_eq!(x25519_mul(&a, &pub_b), x25519_mul(&b, &pub_a));
}

#[test]
fn handshake_establishes_session_keys() {
    let server_sk = [42u8; 32];
    let server_pk = x25519_mul(&server_sk, &BASEPOINT);
    let client = ClientHandshake::with_secrets(server_pk, [1u8; 32], [2u8; 32]);
    // the hello goes out sealed and constant-length
    assert_eq!(client.hello_datagram().len(), PAD_TARGET + 28);
    // a stub server answers with its hello under the first s2c cookie key
    let server_eph = x25519_mul(&[5u8; 32], &BASEPOINT);
    let reply = HandshakeFrame::ServerHello {
        long_pk: server_pk,
        eph_pk: server_eph,
        resume_token: vec![8, 8],
    };
    let cookie = Cookie::new(server_pk);
    let datagram = pad_encrypt(&cookie.s2c_key(0), &reply.encode(), PAD_TARGET);
    match client.handle_datagram(&datagram) {
        HandshakeOutcome::Established(keys) => {
            assert_eq!(keys.resume_token, vec![8, 8]);
            // the keys match the documented triple-ECDH derivation
            let mut material = Vec::new();
            material.extend_from_slice(&x25519_mul(&[1u8; 32], &server_pk));
            material.extend_from_slice(&x25519_mul(&[2u8; 32], &server_pk));
            material.extend_from_slice(&x25519_mul(&[2u8; 32], &server_eph));
            let shared = blake3_hash(&material);
            assert_eq!(keys.up_key, blake3_keyed(&UP_TAG, &shared));
            assert_eq!(keys.dn_key, blake3_keyed(&DN_TAG, &shared));
        },
        _ => panic!("the right server was refused"),
    }
}

#[test]
fn handshake_refuses_wrong_pubkey() {
    let server_pk = x25519_mul(&[42u8; 32], &BASEPOINT);
    let client = ClientHandshake::with_secrets(server_pk, [1u8; 32], [2u8; 32]);
    let imposter = x25519_mul(&[43u8; 32], &BASEPOINT);
    let reply = HandshakeFrame::ServerHello {
        long_pk: imposter,
        eph_pk: imposter,
        resume_token: vec![],
    };
    let cookie = Cookie::new(server_pk);
    let datagram = pad_encrypt(&cookie.s2c_key(1), &reply.encode(), PAD_TARGET);
    assert!(matches!(client.handle_datagram(&datagram), HandshakeOutcome::BadPubkey));
    // noise is ignored, not refused
    assert!(matches!(client.handle_datagram(&[0u8; 500]), HandshakeOutcome::Ignored));
}

#[test]
fn hello_timeouts_double() {
    assert_eq!(hello_timeout_secs(0), 1);
    assert_eq!(hello_timeout_secs(1), 2);
    assert_eq!(hello_timeout_secs(4), 16);
}

#[test]
fn cookie_keys_differ_by_direction_and_index() {
    let cookie = Cookie::new([9u8; 32]);
    assert_ne!(cookie.c2s_key(0), cookie.s2c_key(0));
    assert_ne!(cookie.c2s_key(0), cookie.c2s_key(1));
    assert!(bytes32_eq(&cookie.c2s_key(0), &Cookie::new([9u8; 32]).c2s_key(0)));
}

#[test]
fn shard_rebinds_on_first_send_and_after_interval() {
    let mut shard = ShardState::new(0, [1; 32], [2; 32], [3; 32], vec![7; 4]);
    let frame = DataFrame {
        frame_no: 0,
        run_no: 0,
        run_idx: 0,
        data_shards: 1,
        parity_shards: 0,
        high_recv_frame_no: 0,
        total_recv_frames: 0,
        body: vec![1],
    };
    let first = shard.on_outgoing(&frame, 1000);
    assert!(first.rebind);
    assert!(first.resume_datagram.is_some());
    // sealed frames below the pad target share one constant length
    assert_eq!(first.datagram.len(), PAD_TARGET + 28);
    assert_eq!(first.resume_datagram.as_ref().unwrap().len(), PAD_TARGET + 28);
    let soon = shard.on_outgoing(&frame, 2000);
    assert!(!soon.rebind);
    assert!(soon.resume_datagram.is_none());
    let later = shard.on_outgoing(&frame, 6001);
    assert!(later.rebind);
}

#[test]
fn shard_opens_only_downstream_frames() {
    let dn_key = [6u8; 32];
    let shard = ShardState::new(1, [1; 32], dn_key, [3; 32], vec![]);
    let frame = DataFrame {
        frame_no: 3,
        run_no: 1,
        run_idx: 0,
        data_shards: 1,
        parity_shards: 0,
        high_recv_frame_no: 9,
        total_recv_frames: 9,
        body: vec![4, 5],
    };
    let datagram = pad_encrypt(&dn_key, &frame.encode(), PAD_TARGET);
    let got = shard.on_incoming(&datagram).expect("sealed under the downstream key");
    assert_eq!(got.frame_no, 3);
    assert_eq!(got.body, vec![4, 5]);
    // sealed under another key: dropped
    let foreign = pad_encrypt(&[9u8; 32], &frame.encode(), PAD_TARGET);
    assert!(shard.on_incoming(&foreign).is_none());
}

#[test]
fn nearest_exit_wins() {
    let exits = vec![
        ExitInfo { hostname: "sg-sgp-x".to_string(), sosistab_key: [1; 32] },
        ExitInfo { hostname: "sg-sgp-test-01".to_string(), sosistab_key: [2; 32] },
    ];
    assert_eq!(pick_exit(&exits, "sg-sgp-test-01"), Ok(1));
    assert_eq!(pick_exit(&exits, "sg-sgp-x"), Ok(0));
    assert_eq!(pick_exit(&Vec::new(), "anything"), Err(NetError::NoExits));
}

#[test]
fn exit_ties_go_to_the_earliest() {
    let exits = vec![
        ExitInfo { hostname: "aa".to_string(), sosistab_key: [1; 32] },
        ExitInfo { hostname: "aa".to_string(), sosistab_key: [2; 32] },
    ];
    assert_eq!(pick_exit(&exits, "ab"), Ok(0));
}

#[test]
fn auth_message_layout() {
    let token = AuthToken {
        unblinded_digest: vec![1, 2],
        unblinded_signature: vec![3],
        level: b"free".to_vec(),
    };
    let encoded = encode_auth(&token);
    assert_eq!(encoded, vec![2, 0, 1, 2, 1, 0, 3, 4, 0, b'f', b'r', b'e', b'e']);
    assert_eq!(parse_auth_reply(&[1, 0, 200]), Some(200));
    assert_eq!(parse_auth_reply(&[2, 0, 200]), None);
    assert_eq!(parse_auth_reply(&[1, 0]), None);
}

#[test]
fn bridge_race_takes_first_success() {
    assert_eq!(first_success(&vec![false, true, true]), Ok(1));
    assert_eq!(first_success(&vec![false, false]), Err(NetError::NoBridges));
    assert_eq!(first_success(&Vec::new()), Err(NetError::NoBridges));
}

#[test]
fn keepalive_verdicts() {
    assert_eq!(
        keepalive_step(&KeepaliveEvent::WatchdogProbe { completed: true }),
        KeepaliveVerdict::Continue
    );
    assert_eq!(
        keepalive_step(&KeepaliveEvent::WatchdogProbe { completed: false }),
        KeepaliveVerdict::Restart
    );
    assert_eq!(
        keepalive_step(&KeepaliveEvent::OpenRequest { completed: false }),
        KeepaliveVerdict::Restart
    );
    assert_eq!(keepalive_step(&KeepaliveEvent::StopSignal), KeepaliveVerdict::Restart);
}

#[test]
fn boundary_errors_are_connection_resets() {
    assert_eq!(to_ioerror("channel closed"), NetError::ConnectionReset);
    assert_eq!(sosistab_core::open_reply::<u8>(Some(7)), Ok(7));
    assert_eq!(sosistab_core::open_reply::<u8>(None), Err(NetError::TimedOut));
}
