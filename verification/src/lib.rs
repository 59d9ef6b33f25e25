//! Zero-copy message encoding engine.
//!
//! Structured records are laid out inside a single growable byte buffer:
//! a fixed-layout header occupies a reserved prefix, and every
//! variable-length field (text, raw bytes, repeated elements, tagged
//! unions) lives in the buffer's tail, referenced from its header slot by
//! a relative `(offset, length)` pair.  Because every intra-buffer
//! reference is relative, the buffer can grow and relocate without
//! invalidating stored references, and a populated buffer is its own wire
//! representation: it can be handed to a transport verbatim.
//!
//! On top of the engine sit a small status model shared by client and
//! server, a request/response dispatch shim, and a source generator that
//! turns a service description into client and server call surfaces.

mod buffer;
mod dispatch;
mod enums;
mod fields;
mod layout;
mod oneof;
mod repeated;
mod root;
mod service;
mod status;

pub use buffer::{
    lemma_u64_at_zero, lemma_zero_header_unset, payload_at, slot_len, slot_off,
    slot_preserved_by_frame, slot_unset, slot_valid, u64_at,
};
pub use fields::{
    concat_chunks, encoded_chunks, lemma_encode_utf8_concat, lemma_str_round_trip,
    lemma_writer_chunks_equal_set, writer_valid, Bytes, BytesWriter, Fixed64, Str, StrWriter,
};
pub use dispatch::{complete, dispatch, CallOutcome, ClientConn, Handler};
pub use enums::EnumField;
pub use layout::Layout;
pub use oneof::Oneof;
pub use repeated::{rep_seq, rep_valid, Repeated};
pub use root::Root;
pub use service::{
    client_code, client_method_code, client_methods_code, gen_client_method, gen_server_method,
    gen_service, gen_service_client, gen_service_server, server_code, server_method_code,
    server_methods_code, service_code, snake_case_of, MethodDesc, ServiceDesc,
};
pub use status::{status_of, Error, Status};
