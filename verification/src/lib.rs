pub mod text;
pub mod clock;
pub mod speech;
pub mod tags;
pub mod av;
pub mod scene;
pub mod multiline;
pub mod records;
pub mod channel;
pub mod lines;
pub mod requirement;
pub mod bots;
pub mod json;
pub mod canonical;
pub mod credentials;
pub mod msgid;
pub mod sdk;
pub mod tools;
pub mod modes;
pub mod policy;
pub mod sfu;
pub mod crdt;
pub mod firehose;
pub mod seam;
pub mod cap;
pub mod history;
pub mod commands;
pub mod registration;
pub mod queries;
pub mod delivery;
pub mod federation;
pub mod issuer;
pub mod ambient;
pub mod call;
pub mod replay;
pub mod join;
pub mod privmsg;
pub mod mode_step;
pub mod s2s;
