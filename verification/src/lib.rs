//! A minimal bytecode virtual machine: a decoder that turns a raw byte
//! stream into an instruction sequence, and an execution engine that runs
//! those instructions against a flat, append-only typed value store.
//!
//! Floating-point work (arithmetic, comparison, formatting of `Number`
//! values) and all input/output are performed by the environment that
//! drives the engine: the engine pauses with an explicit effect and is
//! handed the result back.

mod decode;
mod encode;
mod engine;
mod laws;
mod strings;
mod value;

pub use decode::DecModel;
pub use decode::DecStateModel;
pub use decode::DecodeError;
pub use decode::DecodeState;
pub use decode::Decoder;
pub use decode::be64;
pub use decode::be64_of;
pub use decode::be_bytes;
pub use decode::dec_wf;
pub use decode::decode_spec;
pub use decode::feed_all;
pub use decode::feed_spec;
pub use decode::finish_arg;
pub use decode::init_dec;
pub use decode::lemma_be_roundtrip;
pub use decode::lemma_feed_all_concat;
pub use decode::tag_len_ok_n;
pub use decode::to_insts;
pub use encode::encode_args;
pub use encode::encode_inst;
pub use encode::encode_inst_spec;
pub use encode::encode_val;
pub use encode::encode_value;
pub use encode::lemma_encode_decode;
pub use encode::lemma_encode_inst_none;
pub use engine::ArithOp;
pub use engine::Effect;
pub use engine::EffectModel;
pub use engine::Machine;
pub use engine::MachineModel;
pub use engine::Mode;
pub use engine::ModeModel;
pub use engine::advance;
pub use engine::arith_op_of;
pub use engine::loaded;
pub use engine::provide_cond_spec;
pub use engine::provide_key_spec;
pub use engine::provide_num_spec;
pub use engine::provide_text_spec;
pub use engine::spec_arg;
pub use engine::spec_arg_resolved;
pub use engine::spec_branch;
pub use engine::spec_halted;
pub use engine::spec_opt_arg;
pub use engine::step_spec;
pub use laws::lemma_declare_then_print;
pub use laws::lemma_halts_exactly_at_end;
pub use laws::lemma_number_byte_never_equal;
pub use laws::lemma_transitive_resolution;
pub use value::Inst;
pub use value::InstModel;
pub use value::ValModel;
pub use value::Value;
pub use value::VmError;
pub use value::bool_text;
pub use value::bool_to_string;
pub use value::byte_text;
pub use value::byte_to_string;
pub use value::dec_digit;
pub use value::resolve_in;
pub use value::resolve_model;
pub use value::text_of;
pub use value::vals_eq;
pub use value::value_eq;
pub use value::want_addr;
pub use value::want_jump;
pub use value::want_num;
