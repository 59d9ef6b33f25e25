use zeropb::{ClientConn, Error, Fixed64, Handler, Root, Status, Str};

// MsgSend layout: from, to, denom are text slots; amount is a fixed
// scalar after them.
const FROM: usize = 0;
const TO: usize = 16;
const DENOM: usize = 32;
const AMOUNT: usize = 48;
const MSG_SEND_HDR: usize = 56;
const SEND_METHOD: u64 = 1;

struct MsgServer {
    handled: u64,
}

impl Handler for MsgServer {
    fn handle(&mut self, method_id: u64, req: &Root, _resp: &mut Root) -> Result<(), Status> {
        if method_id != SEND_METHOD {
            return Err(Status::App(404));
        }
        let from = Str::at(FROM);
        let to = Str::at(TO);
        let denom = Str::at(DENOM);
        let amount = Fixed64::at(AMOUNT);
        if from.borrow(req) != Ok("alice") || to.borrow(req) != Ok("bob") {
            return Err(Status::App(1));
        }
        if denom.borrow(req) != Ok("atom") || amount.get(req) != 1000 {
            return Err(Status::App(2));
        }
        self.handled += 1;
        // success with an empty response: nothing is written
        Ok(())
    }
}

fn send_request() -> Root {
    let mut req = Root::new(MSG_SEND_HDR);
    Str::at(FROM).set(&mut req, "alice").unwrap();
    Str::at(TO).set(&mut req, "bob").unwrap();
    Str::at(DENOM).set(&mut req, "atom").unwrap();
    Fixed64::at(AMOUNT).set(&mut req, 1000).unwrap();
    req
}

#[test]
fn send_returns_empty_response_not_a_status_error() {
    let mut client = ClientConn::new(MsgServer { handled: 0 });
    let req = send_request();
    let resp = client.call(SEND_METHOD, &req, 0).unwrap();
    // the reply is the empty response container, not a status error
    assert_eq!(resp.header_size(), 0);
    assert_eq!(resp.as_bytes().len(), 0);
}

#[test]
fn failure_status_is_round_tripped_unchanged() {
    let mut client = ClientConn::new(MsgServer { handled: 0 });
    let req = send_request();
    assert!(matches!(client.call(99, &req, 0), Err(Status::App(404))));
    let mut bad = send_request();
    Str::at(TO).set(&mut bad, "mallory").unwrap();
    assert!(matches!(client.call(SEND_METHOD, &bad, 0), Err(Status::App(1))));
}

#[test]
fn handler_populates_response_in_place() {
    struct Echo;
    impl Handler for Echo {
        fn handle(&mut self, _m: u64, req: &Root, resp: &mut Root) -> Result<(), Status> {
            let f = Str::at(0);
            let text = match f.borrow(req) {
                Ok(t) => t.to_string(),
                Err(_) => return Err(Status::Decode),
            };
            match f.set(resp, &text) {
                Ok(()) => Ok(()),
                Err(_) => Err(Status::AlreadyWriting),
            }
        }
    }
    let mut client = ClientConn::new(Echo);
    let mut req = Root::new(16);
    Str::at(0).set(&mut req, "ping").unwrap();
    let resp = client.call(7, &req, 16).unwrap();
    assert_eq!(Str::at(0).borrow(&resp).unwrap(), "ping");
}

#[test]
fn complete_forwards_status_and_suppresses_response() {
    let out = zeropb::complete(Err(Status::App(3)), Root::new(0));
    assert!(matches!(out, zeropb::CallOutcome::Failed(Status::App(3))));
    let out2 = zeropb::complete(Ok(()), Root::new(4));
    assert!(matches!(out2, zeropb::CallOutcome::Reply(_)));
}

#[test]
fn status_mirrors_every_engine_error() {
    assert_eq!(Status::from_error(Error::EncodingError), Status::Encoding);
    assert_eq!(Status::from_error(Error::InvalidEnumValue), Status::InvalidEnum);
    assert_eq!(Status::from_error(Error::DecodeError), Status::Decode);
    assert_eq!(Status::from_error(Error::BoundsError), Status::Bounds);
    assert_eq!(Status::from_error(Error::AlreadyWriting), Status::AlreadyWriting);
    assert!(Status::Success.is_success());
    assert!(!Status::App(0).is_success());
    assert!(!Status::Decode.is_success());
}
