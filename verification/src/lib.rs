//! Decoder for the NTFS `$Secure:$SDS` stream: the on-disk repository of
//! Windows security descriptors. A raw byte stream is turned into a sequence
//! of structured records, each carrying an owner and group security
//! identifier and optional discretionary and system access control lists.
//! Malformed or truncated records are yielded as failed slots without
//! desynchronising the records that follow them.
pub mod ace;
pub mod acl;
pub mod bytes;
pub mod descriptor;
pub mod errors;
pub mod sid;
pub mod stream;
