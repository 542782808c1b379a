//! Decoding of the probe-record section that statically-defined tracing probes leave in a
//! compiled artifact, and the provider definition language that those probes are declared in.
//!
//! - `record`: the wire format of one record and of a section, and their decoding.
//! - `decode`: accumulating records into providers and probes.
//! - `locate`: finding the section in an ELF or Mach-O image.
//! - `provider_def`: the grammar of provider definitions and its parser.
//! - `binding`: the native parameter types of the generated probe stubs.
//! - `laws`: properties that relate several records or calls.

pub mod binding;
pub mod decode;
pub mod error;
pub mod laws;
pub mod locate;
pub mod model;
pub mod provider_def;
pub mod record;
