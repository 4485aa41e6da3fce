use bytes::Bytes;
use ecc608_swi::digest::DIGEST_SIZE;
use ecc608_swi::ecc::Ecc;
use ecc608_swi::error::Error;
use ecc608_swi::retry::SIGN_RETRIES;
use ecc608_swi::sign::Phase;
use ecc608_swi::sign::Run;
use ecc608_swi::sign::SignStep;
use ecc608_swi::sign::Signing;

fn device() -> Ecc {
    Ecc::from_path("/dev/ttyS1", 0).unwrap()
}

fn go_on(step: SignStep) -> (Signing, Run) {
    match step {
        SignStep::Run(signing, run) => (signing, run),
        SignStep::Finish(result) => panic!("ended with {:?}", result),
    }
}

fn end(step: SignStep) -> Result<Bytes, Error> {
    match step {
        SignStep::Run(_, run) => panic!("went on with {:?}", run),
        SignStep::Finish(result) => result,
    }
}

const LOAD: Run = Run { phase: Phase::LoadDigest, sleep_first: false, sleep: false, retries: 1 };
const LOAD_AGAIN: Run =
    Run { phase: Phase::LoadDigest, sleep_first: true, sleep: false, retries: 1 };
const SIGN: Run = Run { phase: Phase::Sign, sleep_first: false, sleep: true, retries: 1 };

#[test]
fn sign_takes_the_digest_of_the_message() {
    let (signing, run) = go_on(device().sign(3, b"abc"));
    assert_eq!(run, LOAD);
    assert_eq!(signing.key_slot(), 3);
    assert_eq!(
        &signing.digest()[..],
        &[
            0xba, 0x78, 0x16, 0xbf, 0x8f, 0x01, 0xcf, 0xea, 0x41, 0x41, 0x40, 0xde, 0x5d, 0xae,
            0x22, 0x23, 0xb0, 0x03, 0x61, 0xa3, 0x96, 0x17, 0x7a, 0x9c, 0xb4, 0x10, 0xff, 0x61,
            0xf2, 0x00, 0x15, 0xad
        ]
    );
}

#[test]
fn sign_takes_the_digest_of_an_empty_message() {
    let (signing, _) = go_on(device().sign(0, b""));
    assert_eq!(signing.digest().len(), 32);
    assert_eq!(DIGEST_SIZE, 32);
    assert_eq!(&signing.digest()[..4], &[0xe3, 0xb0, 0xc4, 0x42]);
}

#[test]
fn sign_runs_load_then_sign() {
    let (signing, run) = go_on(device().sign(7, b"message"));
    assert_eq!(run, LOAD);
    let (signing, run) = go_on(signing.step(Ok(Bytes::new())));
    assert_eq!(run, SIGN);
    assert_eq!(signing.key_slot(), 7);
    let signature = Bytes::from_static(&[0x5A; 64]);
    assert_eq!(end(signing.step(Ok(signature.clone()))), Ok(signature));
}

#[test]
fn sign_restarts_from_the_first_phase_when_the_second_fails() {
    let (signing, _) = go_on(device().sign(7, b"message"));
    let (signing, run) = go_on(signing.step(Ok(Bytes::new())));
    assert_eq!(run, SIGN);
    let (signing, run) = go_on(signing.step(Err(Error::Timeout)));
    assert_eq!(run, LOAD_AGAIN);
    let (signing, run) = go_on(signing.step(Ok(Bytes::new())));
    assert_eq!(run, SIGN);
    let signature = Bytes::from_static(&[1, 2, 3]);
    assert_eq!(end(signing.step(Ok(signature.clone()))), Ok(signature));
}

#[test]
fn sign_restarts_when_the_first_phase_fails() {
    let (signing, _) = go_on(device().sign(1, b"x"));
    let (signing, run) = go_on(signing.step(Err(Error::Timeout)));
    assert_eq!(run, LOAD_AGAIN);
    let (_, run) = go_on(signing.step(Err(Error::Device { code: 0x0F, recoverable: false })));
    assert_eq!(run, LOAD_AGAIN);
}

#[test]
fn sign_keeps_the_digest_over_a_restart() {
    let (signing, _) = go_on(device().sign(1, b"abc"));
    let digest = signing.digest().clone();
    let (signing, _) = go_on(signing.step(Ok(Bytes::new())));
    let (signing, _) = go_on(signing.step(Err(Error::Timeout)));
    assert_eq!(signing.digest(), &digest);
    assert_eq!(signing.key_slot(), 1);
}

#[test]
fn sign_times_out_after_four_attempts() {
    assert_eq!(SIGN_RETRIES, 4);
    let (mut signing, mut run) = go_on(device().sign(1, b"x"));
    for attempt in 0..3 {
        assert_eq!(run.sleep_first, attempt > 0);
        let next = go_on(signing.step(Ok(Bytes::new())));
        assert_eq!(next.1, SIGN);
        let next = go_on(next.0.step(Err(Error::Timeout)));
        assert_eq!(next.1, LOAD_AGAIN);
        signing = next.0;
        run = next.1;
    }
    let (signing, run) = go_on(signing.step(Ok(Bytes::new())));
    assert_eq!(run, SIGN);
    assert_eq!(end(signing.step(Err(Error::Timeout))), Err(Error::Timeout));
}

#[test]
fn sign_times_out_when_the_first_phase_fails_four_times() {
    let (signing, _) = go_on(device().sign(1, b"x"));
    let (signing, _) = go_on(signing.step(Err(Error::Timeout)));
    let (signing, _) = go_on(signing.step(Err(Error::Timeout)));
    let (signing, _) = go_on(signing.step(Err(Error::Timeout)));
    assert_eq!(end(signing.step(Err(Error::Device { code: 0x0F, recoverable: false }))), Err(Error::Timeout));
}

#[test]
fn sign_ends_where_the_port_fails() {
    let (signing, _) = go_on(device().sign(1, b"x"));
    assert_eq!(end(signing.step(Err(Error::PortFailure))), Err(Error::PortFailure));
    let (signing, _) = go_on(device().sign(1, b"x"));
    let (signing, _) = go_on(signing.step(Ok(Bytes::new())));
    assert_eq!(end(signing.step(Err(Error::PortFailure))), Err(Error::PortFailure));
}

#[test]
fn sign_digest_takes_the_digest_as_it_is() {
    let digest: Vec<u8> = (0..32u8).collect();
    let (signing, run) = go_on(device().sign_digest(9, digest.clone()));
    assert_eq!(run, LOAD);
    assert_eq!(signing.digest(), &digest);
    assert_eq!(signing.key_slot(), 9);
    let (signing, run) = go_on(signing.step(Ok(Bytes::new())));
    assert_eq!(run, SIGN);
    assert_eq!(signing.digest(), &digest);
}

#[test]
fn sign_and_sign_digest_agree() {
    let (signing, _) = go_on(device().sign(2, b"abc"));
    let digest = signing.digest().clone();
    let (other, _) = go_on(device().sign_digest(2, digest.clone()));
    assert_eq!(other.digest(), &digest);
    assert_ne!(&digest[..], b"abc");
}
