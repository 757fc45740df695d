//! Inspects network frames against a small set of filter rules.
//!
//! Rules are read from lines of text ([`rule_parser`]), the headers of a frame are read
//! from its bytes ([`packet_headers`]), the headers are held against the rules
//! ([`rule_matcher`]), and every match is reported with the frame in hexadecimal
//! ([`hex_dump`], [`network_capture`]). Each step is a function from plain values to plain
//! values with its contract; where the frames come from is left to the caller.
pub mod hex_dump;
pub mod network_capture;
pub mod packet_headers;
pub mod rule_matcher;
pub mod rule_parser;
pub mod text;
