use zeropb::{gen_client_method, gen_server_method, gen_service, MethodDesc, ServiceDesc};

fn send_method() -> MethodDesc {
    MethodDesc {
        name: "Send".to_string(),
        input_type: "MsgSend".to_string(),
        output_type: "MsgSendResponse".to_string(),
    }
}

#[test]
fn server_method_declaration() {
    let mut out = String::new();
    gen_server_method(&send_method(), &mut out);
    assert_eq!(
        out,
        "    fn send(&self, ctx: &Ctx, req: &MsgSend, resp: &mut MsgSendResponse) -> Result<(), Err>;\n"
    );
}

#[test]
fn client_method_impl() {
    let mut out = String::new();
    gen_client_method(&send_method(), &mut out);
    assert_eq!(
        out,
        "    fn send(&self, req: &MsgSend) -> Result<MsgSendResponse, i32> {\n        self.client_conn.call(req)\n    }\n"
    );
}

#[test]
fn whole_service_surface() {
    let svc = ServiceDesc {
        name: "Msg".to_string(),
        methods: vec![
            send_method(),
            MethodDesc {
                name: "MultiSend".to_string(),
                input_type: "MsgMultiSend".to_string(),
                output_type: "MsgMultiSendResponse".to_string(),
            },
        ],
    };
    let mut out = String::new();
    gen_service(&svc, &mut out);
    let expected = "trait MsgServer<Ctx, Err> {\n    fn send(&self, ctx: &Ctx, req: &MsgSend, resp: &mut MsgSendResponse) -> Result<(), Err>;\n    fn multi_send(&self, ctx: &Ctx, req: &MsgMultiSend, resp: &mut MsgMultiSendResponse) -> Result<(), Err>;\n}\n\nstruct MsgClient<Client> {\n   client_conn: Client\n}\n\nimpl <Client> MsgClient<Client> {\n    fn send(&self, req: &MsgSend) -> Result<MsgSendResponse, i32> {\n        self.client_conn.call(req)\n    }\n    fn multi_send(&self, req: &MsgMultiSend) -> Result<MsgMultiSendResponse, i32> {\n        self.client_conn.call(req)\n    }\n}\n\n";
    assert_eq!(out, expected);
}

#[test]
fn empty_service_generates_empty_surfaces() {
    let svc = ServiceDesc { name: "Idle".to_string(), methods: vec![] };
    let mut out = String::new();
    gen_service(&svc, &mut out);
    let expected = "trait IdleServer<Ctx, Err> {\n}\n\nstruct IdleClient<Client> {\n   client_conn: Client\n}\n\nimpl <Client> IdleClient<Client> {\n}\n\n";
    assert_eq!(out, expected);
}
