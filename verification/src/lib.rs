//! A script-driven generator: it finds the tagged functions of a script,
//! calls each with one text, reads what came back, and says where each
//! result is to be written.

pub mod text;
pub mod normalize_path;
pub mod replace_prefix_or_not;
pub mod from_key_to_fs_path;
pub mod data_struct;
pub mod built_in_filter;
pub mod engine;
pub mod js_convert_judge;
pub mod get_property;
pub mod find_exported_functions;
pub mod call_func;
pub mod call_in_compose;
pub mod make_uuid_for_path_not;
pub mod write_fs_kv_pairs;
pub mod executors;
pub mod load_config_file;
