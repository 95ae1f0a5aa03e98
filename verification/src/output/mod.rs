//! Output planning, capability resolution and materialization.
pub mod enum_set;
pub mod capabilities;
pub mod plan;
pub mod resolution;
pub mod plugin_protocol;
pub mod plugin_protocol_conversion;
pub mod plugin_client;
pub mod plugin_encoder;
pub mod plugin_registry;
pub mod plugin_runtime_error;
pub mod plugin_runtime;
pub mod plugin_discovery;
pub mod encode;
pub mod basic_encoder;
pub mod cue_bin_encoder;
pub mod logical_disc_iso_encoder;
pub mod chd_passthrough_encoder;
pub mod presentation_spec;
pub mod presentation_file;
pub mod presentation_expansion;
pub mod encoder_registry;
pub mod materialize;
pub mod presentation_compile;
pub mod present;
pub mod flat_presenter;
pub mod grouped_presenter;
pub mod name_allocator;
pub mod presenter_utils;
pub mod presenter_registry;
