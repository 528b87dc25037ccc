use witmotion_modbus::modbus::encode_read_response;
use witmotion_modbus::registers::AX;
use witmotion_modbus::scan::{supported_baud_rates, BaudScanner, ScanStep, MAX_SCAN_STEPS};
use witmotion_modbus::session::SensorSession;

/// A simulated transport that answers trial reads only at `answer`, and
/// accepts a speed unless it is listed in `refused`.
fn run_discovery(answer: Option<u32>, refused: &[u32]) -> (ScanStep, Vec<u32>) {
    let mut scanner = BaudScanner::new();
    let mut session = SensorSession::new(0x50);
    let mut applied = Vec::new();
    for _ in 0..=MAX_SCAN_STEPS {
        match scanner.step() {
            ScanStep::SetRate(rate) => {
                let ok = !refused.contains(&rate);
                if ok {
                    session.set_baud_rate(rate);
                    session.clear_buffer();
                    applied.push(rate);
                }
                scanner.advance(ok);
            }
            ScanStep::Probe(rate) => {
                let _request = session.read_request(AX, 3);
                let mut got = false;
                if Some(rate) == answer && session.current_baud_rate() == rate {
                    for b in encode_read_response(0x50, &[1, 2, 3]) {
                        if let Ok(Some(_)) = session.handle_byte(b) {
                            got = true;
                        }
                    }
                }
                scanner.advance(got);
            }
            done => return (done, applied),
        }
    }
    panic!("scan did not finish");
}

#[test]
fn discovery_finds_answering_rate() {
    for rate in supported_baud_rates() {
        let (step, _) = run_discovery(Some(rate), &[]);
        assert_eq!(step, ScanStep::Found(rate));
    }
}

#[test]
fn discovery_silent_transport_not_found() {
    let (step, applied) = run_discovery(None, &[]);
    assert_eq!(step, ScanStep::NotFound);
    assert_eq!(applied, supported_baud_rates());
}

#[test]
fn discovery_skips_refused_rates() {
    let (step, applied) = run_discovery(Some(115200), &[9600, 38400]);
    assert_eq!(step, ScanStep::Found(115200));
    assert_eq!(applied, vec![19200, 57600, 115200]);
    let (step, _) = run_discovery(Some(9600), &[9600]);
    assert_eq!(step, ScanStep::NotFound);
}

#[test]
fn candidate_list() {
    assert_eq!(
        supported_baud_rates(),
        vec![9600, 19200, 38400, 57600, 115200, 2400, 4800, 230400, 460800, 921600]
    );
    assert_eq!(BaudScanner::new().step(), ScanStep::SetRate(9600));
}
