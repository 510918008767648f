//! Reading and writing TFRecord framing: length-prefixed records whose length
//! field and payload are each protected by a masked CRC-32C checksum.

pub mod masked_crc;
pub mod little_endian;
pub mod tf_record;
pub mod lemmas;
