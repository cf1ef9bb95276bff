//! Lints for `waterui` code: each one reads a tree of the code under inspection
//! with what the compiler knows about it, and says what it finds as data.
//!
//! `hir` and `builder` hold the tree, `carriers`, `ty` and `known` what is asked of
//! it; `text`, `lexer`, `template`, `format_args` and `macro_call` read source text;
//! `imports`, `sugg` and `diagnostics` write fixes and findings. Every other module
//! is a lint or the machinery that a few lints share.

pub mod anyview;
pub mod anyview_new_in_free_fn;
pub mod binding;
pub mod binding_parameter_by_value;
pub mod blocking_in_ui_context;
pub mod builder;
pub mod carriers;
pub mod collection_item_snapshot;
pub mod color;
pub mod computed;
pub mod computed_parameter;
pub mod default_binding_constructor;
pub mod derive_list;
pub mod diagnostics;
pub mod discarded_call;
pub mod discarded_wait_result;
pub mod empty_label_literal;
pub mod fixed_children_in_vec;
pub mod format_args;
pub mod format_in_text;
pub mod format_specs;
pub mod handler_captures_binding;
pub mod hardcoded_theme_value;
pub mod hir;
pub mod if_else_view;
pub mod image_without_label;
pub mod imports;
pub mod known;
pub mod laws;
pub mod lexer;
pub mod lint;
pub mod list;
pub mod list_in_scroll;
pub mod literal_color_components;
pub mod localized_concat;
pub mod long_text_key;
pub mod macro_call;
pub mod manual_binding_mutation;
pub mod manual_color_erasure;
pub mod manual_computed;
pub mod manual_edge_insets;
pub mod manual_identifiable;
pub mod manual_list_mutation;
pub mod manual_muted_foreground;
pub mod manual_signal_combinator;
pub mod manual_signal_zip_op;
pub mod manual_string_signal;
pub mod manual_text_map;
pub mod meaning;
pub mod missing_translation;
pub mod needless_anyview;
pub mod needless_computed;
pub mod needless_list_snapshot;
pub mod needless_signal_cast;
pub mod placeholders;
pub mod receiver;
pub mod rows;
pub mod signal_map;
pub mod signature;
pub mod source_map;
pub mod sugg;
pub mod template;
pub mod text;
pub mod ty;
pub mod updates;
