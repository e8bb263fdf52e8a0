//! Event invitation and RSVP service: durable storage of Events and
//! Attendees, identifier generation and text encoding, repository
//! operations, and the request-handling layer that maps parsed requests
//! to repository calls and repository outcomes to responses.
pub mod attendee;
pub mod calendar;
pub mod errors;
pub mod event;
pub mod handlers;
pub mod ids;
pub mod store;
