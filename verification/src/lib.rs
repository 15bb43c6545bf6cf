//! Text edits, decisions and build plans for GKI kernel trees.
pub mod bazel;
pub mod ctx;
pub mod device;
pub mod device_laws;
pub mod diff;
pub mod diff_laws;
pub mod edit_laws;
pub mod edits;
pub mod failure;
pub mod failure_laws;
pub mod family;
pub mod features;
pub mod finish;
pub mod finish_laws;
pub mod fixes;
pub mod fixes_laws;
pub mod kconfig;
pub mod kconfig_laws;
pub mod kernel;
pub mod kernel_laws;
pub mod lines;
pub mod naming;
pub mod option_list_laws;
pub mod own_options_laws;
pub mod paths;
pub mod pipeline;
pub mod pipeline_laws;
pub mod place_laws;
pub mod plan;
pub mod process;
pub mod regexes;
pub mod rewrite;
pub mod reading_laws;
pub mod root;
pub mod sed;
pub mod sed_laws;
pub mod selinux;
pub mod selinux_laws;
pub mod setup_laws;
pub mod sources;
pub mod sources_laws;
pub mod stamp;
pub mod step_laws;
pub mod stg;
pub mod summary;
pub mod summary_laws;
pub mod susfs;
pub mod susfs_laws;
pub mod susfs_state_laws;
pub mod targets;
pub mod targets_laws;
pub mod text;
pub mod text_laws;
pub mod tree;
pub mod tree_laws;
pub mod version;
pub mod word_laws;
pub mod words;
