//! Instances of the peripheral, and the pins that can be connected to each.

use vstd::prelude::*;

verus! {

/// An instance of the peripheral.
pub trait Instance {

}

/// A pin that an instance can receive on.
pub trait RxPin<T: Instance> {
    /// The function number that connects the pin.
    spec fn function(&self) -> u8;

    /// The function number that connects the pin.
    fn pf_num(&self) -> (n: u8)
        ensures
            n == self.function(),
    ;
}

/// A pin that an instance can transmit on.
pub trait TxPin<T: Instance> {
    /// The function number that connects the pin.
    spec fn function(&self) -> u8;

    /// The function number that connects the pin.
    fn pf_num(&self) -> (n: u8)
        ensures
            n == self.function(),
    ;
}

/// The first instance.
#[derive(Clone, Copy, PartialEq, Eq, Debug)]
pub struct CANFD0;

impl Instance for CANFD0 {

}

/// Pin 26 of port A.
#[derive(Clone, Copy, PartialEq, Eq, Debug)]
pub struct PA26;

/// Pin 27 of port A.
#[derive(Clone, Copy, PartialEq, Eq, Debug)]
pub struct PA27;

impl RxPin<CANFD0> for PA27 {
    open spec fn function(&self) -> u8 {
        6
    }

    fn pf_num(&self) -> (n: u8) {
        6
    }
}

impl TxPin<CANFD0> for PA26 {
    open spec fn function(&self) -> u8 {
        6
    }

    fn pf_num(&self) -> (n: u8) {
        6
    }
}

/// Function six connects both pins of the first instance.
pub proof fn law_pin_functions(rx: PA27, tx: PA26)
    ensures
        RxPin::<CANFD0>::function(&rx) == 6,
        TxPin::<CANFD0>::function(&tx) == 6,
{
}

} // verus!
