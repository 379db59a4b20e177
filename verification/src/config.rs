//! Configuration: sections, templates, typed settings and resolved policy.

pub mod effect;
pub mod error;
pub mod fidelity;
pub mod section;
pub mod inheritance;
pub mod overlay;
pub mod policy;
pub mod setting;
pub mod network;
pub mod tone;
pub mod group;
pub mod rules;
pub mod registration;
pub mod variable;
pub mod codec;
pub mod schema;
pub mod softkey;
pub mod option;
pub mod spelling;
pub mod value;
pub mod words;
pub mod defaults;
pub mod general;
pub mod general_effect;
pub mod line;
pub mod line_effect;
pub mod meaning;
pub mod button;
pub mod device;
pub mod device_effect;
pub mod assembly;
pub mod module;
pub mod canonical;
pub mod convergence;
pub mod realtime;
pub mod provider;
pub mod file;
pub mod order;
pub mod restatement;
pub mod secrecy;
pub mod shuffle;
pub mod appearance;
pub mod soundness;
pub mod accumulation;
pub mod lookup;
pub mod reading;
pub mod button_effect;
