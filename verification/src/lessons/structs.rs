//! Records and their methods.

use vstd::prelude::*;

verus! {

/// An account.
#[derive(Debug)]
pub struct User {
    pub active: bool,
    pub username: String,
    pub email: String,
    pub sign_in_count: u64,
}

/// The account of someone who has just signed in for the first time: active,
/// with one sign-in, under the given name and address.
pub fn build_user(email: String, username: String) -> (user: User)
    ensures
        user.active,
        user.username == username,
        user.email == email,
        user.sign_in_count == 1,
{
    User { active: true, username, email, sign_in_count: 1 }
}

/// A rectangle with sides of whole length.
#[derive(Debug)]
pub struct Rectangle {
    pub width: u32,
    pub height: u32,
}

impl Rectangle {
    /// The area, which has to fit into 32 bits.
    pub fn area(&self) -> (area: u32)
        requires
            self.width * self.height <= u32::MAX,
        ensures
            area == self.width * self.height,
    {
        self.width * self.height
    }

    /// The length of the outline, which has to fit into 32 bits.
    pub fn perimeter(&self) -> (perimeter: u32)
        requires
            2 * (self.width + self.height) <= u32::MAX,
        ensures
            perimeter == 2 * (self.width + self.height),
    {
        2 * (self.width + self.height)
    }

    /// Doubles both sides, each of which has to fit into 32 bits afterwards.
    pub fn double_size(&mut self)
        requires
            2 * old(self).width <= u32::MAX,
            2 * old(self).height <= u32::MAX,
        ensures
            final(self).width == 2 * old(self).width,
            final(self).height == 2 * old(self).height,
    {
        self.width *= 2;
        self.height *= 2;
    }

    /// Whether `other` fits inside `self` with room to spare on every side:
    /// `self` is wider and higher.
    pub fn can_hold(&self, other: &Rectangle) -> (fits: bool)
        ensures
            fits <==> self.width > other.width && self.height > other.height,
    {
        self.width > other.width && self.height > other.height
    }

    /// The square with sides of length `size`.
    pub fn square(size: u32) -> (square: Rectangle)
        ensures
            square.width == size,
            square.height == size,
    {
        Rectangle { width: size, height: size }
    }
}

} // verus!
