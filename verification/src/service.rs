//! The service source generator: turns a service description (methods
//! with typed request/response messages) into the client and server
//! call-surface declarations over the engine's message types.

use heck::ToSnakeCase;
use vstd::prelude::*;
use vstd::string::StringExecFns;

verus! {

/// One method of a service description: its name and the names of its
/// request and response message types, as the schema gives them.
pub struct MethodDesc {
    /// The method's declared name.
    pub name: String,
    /// The request message type's name.
    pub input_type: String,
    /// The response message type's name.
    pub output_type: String,
}

/// A service description: the given input of the source generator.
pub struct ServiceDesc {
    /// The service's declared name.
    pub name: String,
    /// The service's methods, in declaration order.
    pub methods: Vec<MethodDesc>,
}

/// What heck's snake-case conversion returns; the result depends on the
/// input characters alone.
pub uninterp spec fn snake_case_of(s: Seq<char>) -> Seq<char>;

/// Relies on heck's `ToSnakeCase::to_snake_case` for the snake_case
/// spelling of a generated function name.
#[verifier::external_body]
fn to_snake_case(s: &str) -> (r: String)
    ensures
        r@ == snake_case_of(s@),
{
    ToSnakeCase::to_snake_case(s)
}

/// The generated server-side declaration of one method.
pub open spec fn server_method_code(m: MethodDesc) -> Seq<char> {
    "    fn "@ + snake_case_of(m.name@) + "(&self, ctx: &Ctx, req: &"@ + m.input_type@
        + ", resp: &mut "@ + m.output_type@ + ") -> Result<(), Err>;\n"@
}

/// The generated server-side declarations of a method list, in order.
pub open spec fn server_methods_code(ms: Seq<MethodDesc>) -> Seq<char>
    decreases ms.len(),
{
    if ms.len() == 0 {
        Seq::empty()
    } else {
        server_methods_code(ms.drop_last()) + server_method_code(ms.last())
    }
}

/// The generated server-side trait for a service.
pub open spec fn server_code(s: ServiceDesc) -> Seq<char> {
    "trait "@ + s.name@ + "Server<Ctx, Err> {\n"@ + server_methods_code(s.methods@) + "}\n\n"@
}

/// The generated client-side method for one method.
pub open spec fn client_method_code(m: MethodDesc) -> Seq<char> {
    "    fn "@ + snake_case_of(m.name@) + "(&self, req: &"@ + m.input_type@ + ") -> Result<"@
        + m.output_type@ + ", i32> {\n        self.client_conn.call(req)\n    }\n"@
}

/// The generated client-side methods of a method list, in order.
pub open spec fn client_methods_code(ms: Seq<MethodDesc>) -> Seq<char>
    decreases ms.len(),
{
    if ms.len() == 0 {
        Seq::empty()
    } else {
        client_methods_code(ms.drop_last()) + client_method_code(ms.last())
    }
}

/// The generated client-side aggregate and its method impls.
pub open spec fn client_code(s: ServiceDesc) -> Seq<char> {
    "struct "@ + s.name@ + "Client<Client> {\n   client_conn: Client\n}\n\n"@ + "impl <Client> "@
        + s.name@ + "Client<Client> {\n"@ + client_methods_code(s.methods@) + "}\n\n"@
}

/// Everything generated for one service: the server trait, then the
/// client aggregate.
pub open spec fn service_code(s: ServiceDesc) -> Seq<char> {
    server_code(s) + client_code(s)
}

/// Appends the server-side declaration of one method.
pub fn gen_server_method(m: &MethodDesc, out: &mut String)
    ensures
        final(out)@ == old(out)@ + server_method_code(*m),
{
    out.append("    fn ");
    let sn = to_snake_case(m.name.as_str());
    out.append(sn.as_str());
    out.append("(&self, ctx: &Ctx, req: &");
    out.append(m.input_type.as_str());
    out.append(", resp: &mut ");
    out.append(m.output_type.as_str());
    out.append(") -> Result<(), Err>;\n");
    proof {
        assert(out@ =~= old(out)@ + server_method_code(*m));
    }
}

/// Appends the server-side trait declaration for a whole service.
pub fn gen_service_server(s: &ServiceDesc, out: &mut String)
    ensures
        final(out)@ == old(out)@ + server_code(*s),
{
    out.append("trait ");
    out.append(s.name.as_str());
    out.append("Server<Ctx, Err> {\n");
    let ghost base = out@;
    let n = s.methods.len();
    let mut k: usize = 0;
    proof {
        assert(s.methods@.take(0) =~= Seq::<MethodDesc>::empty());
        assert(base + server_methods_code(s.methods@.take(0)) =~= base);
    }
    while k < n
        invariant
            k <= n,
            n == s.methods@.len(),
            out@ == base + server_methods_code(s.methods@.take(k as int)),
        decreases n - k,
    {
        gen_server_method(&s.methods[k], out);
        proof {
            assert(s.methods@.take(k + 1).drop_last() =~= s.methods@.take(k as int));
            assert(out@ =~= base + server_methods_code(s.methods@.take(k + 1)));
        }
        k += 1;
    }
    proof {
        assert(s.methods@.take(n as int) =~= s.methods@);
    }
    out.append("}\n\n");
    proof {
        assert(out@ =~= old(out)@ + server_code(*s));
    }
}

/// Appends the client-side method impl for one method.
pub fn gen_client_method(m: &MethodDesc, out: &mut String)
    ensures
        final(out)@ == old(out)@ + client_method_code(*m),
{
    out.append("    fn ");
    let sn = to_snake_case(m.name.as_str());
    out.append(sn.as_str());
    out.append("(&self, req: &");
    out.append(m.input_type.as_str());
    out.append(") -> Result<");
    out.append(m.output_type.as_str());
    out.append(", i32> {\n        self.client_conn.call(req)\n    }\n");
    proof {
        assert(out@ =~= old(out)@ + client_method_code(*m));
    }
}

/// Appends the client-side aggregate and method impls for a service.
pub fn gen_service_client(s: &ServiceDesc, out: &mut String)
    ensures
        final(out)@ == old(out)@ + client_code(*s),
{
    out.append("struct ");
    out.append(s.name.as_str());
    out.append("Client<Client> {\n   client_conn: Client\n}\n\n");
    out.append("impl <Client> ");
    out.append(s.name.as_str());
    out.append("Client<Client> {\n");
    let ghost base = out@;
    let n = s.methods.len();
    let mut k: usize = 0;
    proof {
        assert(s.methods@.take(0) =~= Seq::<MethodDesc>::empty());
        assert(base + client_methods_code(s.methods@.take(0)) =~= base);
    }
    while k < n
        invariant
            k <= n,
            n == s.methods@.len(),
            out@ == base + client_methods_code(s.methods@.take(k as int)),
        decreases n - k,
    {
        gen_client_method(&s.methods[k], out);
        proof {
            assert(s.methods@.take(k + 1).drop_last() =~= s.methods@.take(k as int));
            assert(out@ =~= base + client_methods_code(s.methods@.take(k + 1)));
        }
        k += 1;
    }
    proof {
        assert(s.methods@.take(n as int) =~= s.methods@);
    }
    out.append("}\n\n");
    proof {
        assert(out@ =~= old(out)@ + client_code(*s));
    }
}

/// Appends everything generated for one service: the server-side trait,
/// then the client-side aggregate.
pub fn gen_service(s: &ServiceDesc, out: &mut String)
    ensures
        final(out)@ == old(out)@ + service_code(*s),
{
    gen_service_server(s, out);
    gen_service_client(s, out);
    proof {
        assert(out@ =~= old(out)@ + service_code(*s));
    }
}

} // verus!
