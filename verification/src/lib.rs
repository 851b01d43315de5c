//! Embeddings for texts, asked for at the channels that are configured.
//!
//! The library decides and checks; it neither sends nor loads anything. A job ([`job`]) says which
//! channel is asked next and builds the request ([`request`], [`channel`]); what comes back is read
//! ([`reply`], [`response`]) and put into the order of the texts.
//!
//! The laws say what holds of every input: [`text_laws`] of the texts that are built,
//! [`request_laws`] of what a channel is asked, [`batch_laws`] of which vectors are accepted and
//! where they go, [`reading_laws`] and [`response_laws`] of what a response comes to, [`reply_laws`]
//! of what a reply comes to, and [`job_laws`] of the course of a job.
pub mod batch_laws;
pub mod channel;
pub mod job;
pub mod job_laws;
pub mod json;
pub mod reading_laws;
pub mod reply;
pub mod reply_laws;
pub mod request;
pub mod request_laws;
pub mod response;
pub mod response_laws;
pub mod text;
pub mod text_laws;
