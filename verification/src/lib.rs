pub mod attributes;
pub mod capabilities;
pub mod code_capabilities;
pub mod cfn_resources;
pub mod cfn_text;
pub mod deploy;
pub mod deploy_macros;
pub mod funcdef;
pub mod kv;
pub mod level0;
pub mod level2;
pub mod macro_text;
pub mod macros;
pub mod matchdef;
pub mod moddef;
pub mod module_scripting;
pub mod outputs;
pub mod module_driver;
pub mod module_loading;
pub mod module_parse;
pub mod module_text;
pub mod registry;
pub mod registry_modules;
pub mod resources;
pub mod shared_files;
pub mod syn_model;
pub mod text;
pub mod tokens;
pub mod use_paths;
pub mod wasm_code;
