//! Batch resizing of JPEG images: the decisions behind discovery, request
//! building, target dimensions and batch accounting, with the image codec
//! reached through a few stated calls.
mod batch;
mod config;
mod discovery;
mod imaging;
mod paths;
mod request;
mod scale;

pub use batch::{
    count_failed, count_saved, lemma_finished_batch, lemma_saved_is_total_minus_failed, Batch,
    BatchView,
};
pub use config::{
    all_digits, digits_value, dimension_at, is_digit, parse_dimension, parse_ratio, positive_number,
    number_value, pow10, ratio_at, unsigned, valid_digits,
    valid_number, without,
};
pub use discovery::{
    find_all_jpegs, has_suffix, is_jpeg_name, jpeg_entry_at, jpeg_name, jpeg_paths,
    lemma_jpeg_paths_members, lemma_jpeg_paths_set, views, ListedEntry,
};
pub use paths::{file_name_of, joined, joins_plainly, parent_of, plain_name};
pub use imaging::{image_dims, resampled, resizable, resize_for};
pub use scale::{
    dims_for, filter_for, filter_of, lemma_dimension_is_exact, lemma_ratio_truncates, scaled_side,
    target_dimensions, Filter, Quality, Scale,
};
pub use request::{
    build_requests, get_spec, lemma_save_only_after_decode, lemma_target_first, next_step,
    output_dir_of, output_name, prepare_target, request_for, step_of, Action, Event, Phase,
    target_action_of, target_file, target_file_of, CompressionSpec, TargetAction, TargetState, DEFAULT_NAME,
};
