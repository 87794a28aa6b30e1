//! Volume-control model for a PulseAudio D-Bus client.
//!
//! The sound server publishes its private socket address through a session-bus
//! lookup service and exposes sink and source devices as D-Bus objects.  This
//! crate holds the verified core of an applet built on that interface: parsing
//! the advertised socket address, the device records themselves, and the
//! assembly of enumerated devices into a client snapshot.  The D-Bus transport
//! and the widget tree live outside the library and exchange plain values with
//! it.

pub mod pulse_dbus;
