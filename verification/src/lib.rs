//! A classification lexer for a small `find`-style query language.
//!
//! The shell has already split the command line into words, so no
//! re-tokenization happens here: the lexer's sole job is to classify each
//! already-delimited argument as a keyword, an action word, an entry-type
//! word, or (by default) a path, and to hand the resulting tokens to a
//! parser one at a time.

pub mod arg_lexer;
