//! Selection-ownership and data-exchange engine for the X11 clipboard.
//!
//! The library holds the protocol's decisions: which payloads a selection
//! offers, how requests from other clients are answered, how a reply is
//! assembled (also from incremental segments), and how the data is handed to
//! a clipboard manager before the owning window goes away. The connection to
//! the display server, the locks and the service thread live around it.

mod atoms;
mod bitmap;
mod builder;
mod error;
mod handover;
mod payload;
mod read;
mod serve;
mod store;
mod text;

pub use atoms::{lemma_kind_atom_inverse, Atoms, LinuxClipboardKind};
pub use bitmap::{
    decode_png, encode_as_png, is_encodable, png_decoding, png_encoding, ImageData,
};
pub use builder::{
    ClearExtLinux, GetExtLinux, ReadOptions, SetExtLinux, WaitConfig, WriteOptions,
};
pub use error::{into_unknown, Error};
pub use handover::{
    dispatch, handover_plan, is_data_format, is_last_handle, lemma_ownership_taken_over,
    lemma_sensitive_never_saved, lemma_sensitive_targets_omit_save, plan_handover, server_action, Handover, HandoverModel,
    HandoverPlan, HandoverState, ServerAction, ServerEvent, MIN_OWNERS,
};
pub use payload::{
    add_clipboard_exclusions, alt_view, decode_text, exclusion_bytes, exclusion_payload,
    html_offer, html_payloads, image_payloads, text_formats, text_formats_spec, text_payload,
    text_payloads, with_exclusion,
};
pub use read::{
    after_attempt, after_segment, assemble, lemma_segmented_assembly, sat_add, Fetch,
    ReadEvent, ReadModel, ReadSession, ReadStep, Stage, LONG_TIMEOUT_MS, SHORT_TIMEOUT_MS,
};
pub use serve::{
    advertised_formats, answer_request, formats_of, is_sensitive, refuse_request, targets_answer,
    PropertyWrite,
    ServeReply,
};
pub use store::{
    ensure_serving, find_format, first_with_format, lemma_format_preference, lemma_found_payload,
    lemma_preference_decides,
    lemma_write_read_round_trip, payload_views, pick_payload, ClipboardData, PayloadView,
    SelectionState,
};
pub use text::{
    byte_views, decode_file_list, decode_utf8_text, file_scheme, hex_value, latin1,
    latin1_to_string, lines_of, paths_from_uri_list, percent_decoded, pieces, split_lines,
    string_views, strip_cr, stripped, uri_path, uri_paths,
};
