//! Devices: a socket with an on/off state and a thermometer with a textual
//! temperature. Each has a name and can render a status report line.

use vstd::prelude::*;

verus! {

/// Power state of a socket.
pub enum State {
    Off,
    On,
}

/// Something with a name and a renderable status report.
pub trait Device {
    /// The device's name.
    spec fn name_spec(&self) -> Seq<char>;

    /// The exact text of the device's status report.
    spec fn report_spec(&self) -> Seq<char>;

    fn get_name(&self) -> (r: &str)
        ensures
            r@ == self.name_spec(),
    ;

    fn create_report(&self) -> (r: String)
        ensures
            r@ == self.report_spec(),
    ;
}

/// A named socket that is either on or off.
pub struct SmartSocket {
    pub name: String,
    pub state: State,
}

impl SmartSocket {
    /// Whether the socket is currently on.
    pub open spec fn is_on(&self) -> bool {
        self.state is On
    }

    pub fn new(name: String, state: State) -> (r: SmartSocket)
        ensures
            r.name == name,
            r.is_on() == (state is On),
    {
        SmartSocket { name, state }
    }

    /// Flips the socket between on and off.
    pub fn switch(&mut self)
        ensures
            final(self).name == old(self).name,
            final(self).is_on() == !old(self).is_on(),
    {
        match self.state {
            State::Off => self.state = State::On,
            State::On => self.state = State::Off,
        }
    }

    /// Whether the socket is on.
    pub fn is_switched(&self) -> (r: bool)
        ensures
            r == self.is_on(),
    {
        match self.state {
            State::Off => false,
            State::On => true,
        }
    }
}

impl Device for SmartSocket {
    open spec fn name_spec(&self) -> Seq<char> {
        self.name@
    }

    open spec fn report_spec(&self) -> Seq<char> {
        "SmartSocket: "@ + self.name@ + ", state is "@ + (if self.is_on() {
            "On"@
        } else {
            "Off"@
        })
    }

    fn get_name(&self) -> &str {
        self.name.as_str()
    }

    fn create_report(&self) -> String {
        let mut r = String::from_str("SmartSocket: ");
        r.append(self.name.as_str());
        r.append(", state is ");
        match self.state {
            State::On => r.append("On"),
            State::Off => r.append("Off"),
        }
        r
    }
}

/// A named thermometer whose temperature reading is kept as text.
pub struct SmartThermometer {
    pub name: String,
    pub temperature: String,
}

impl SmartThermometer {
    pub fn new(name: String, temperature: String) -> (r: SmartThermometer)
        ensures
            r.name == name,
            r.temperature == temperature,
    {
        SmartThermometer { name, temperature }
    }
}

impl Device for SmartThermometer {
    open spec fn name_spec(&self) -> Seq<char> {
        self.name@
    }

    open spec fn report_spec(&self) -> Seq<char> {
        "Thermometer: "@ + self.name@ + ", temperature is \""@ + self.temperature@ + "\""@
    }

    fn get_name(&self) -> &str {
        self.name.as_str()
    }

    fn create_report(&self) -> String {
        let mut r = String::from_str("Thermometer: ");
        r.append(self.name.as_str());
        r.append(", temperature is \"");
        r.append(self.temperature.as_str());
        r.append("\"");
        r
    }
}

} // verus!
