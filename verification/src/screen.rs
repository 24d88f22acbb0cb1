//! The output pixel grid: a row-major buffer of quantized colors.

use crate::vec3::{Color, Vec3};
use vstd::prelude::*;

verus! {

pub struct Screen {
    pub screen_data: Vec<Color>,
    pub width: usize,
    pub height: usize,
}

impl Screen {
    pub open spec fn inv(self) -> bool {
        self.screen_data@.len() == self.width * self.height
    }

    /// A black screen of the given dimensions.
    pub fn from(width: usize, height: usize) -> (r: Self)
        requires
            width * height <= usize::MAX,
        ensures
            r.width == width,
            r.height == height,
            r.inv(),
            forall|k: int|
                0 <= k < r.screen_data@.len() ==> #[trigger] r.screen_data@[k] == (Vec3 {
                    x: 0i64,
                    y: 0i64,
                    z: 0i64,
                }),
    {
        let n = width * height;
        let mut screen_data: Vec<Color> = Vec::new();
        let mut k: usize = 0;
        while k < n
            invariant
                k <= n,
                screen_data@.len() == k,
                forall|q: int|
                    0 <= q < k ==> #[trigger] screen_data@[q] == (Vec3 {
                        x: 0i64,
                        y: 0i64,
                        z: 0i64,
                    }),
            decreases n - k,
        {
            screen_data.push(Vec3::zero());
            k = k + 1;
        }
        Self { screen_data, width, height }
    }

    pub fn get(&self, x: usize, y: usize) -> (r: Color)
        requires
            self.inv(),
            x < self.width,
            y < self.height,
        ensures
            r == self.screen_data@[x + y * self.width],
    {
        let data_len = self.screen_data.len();
        proof {
            assert(x + y * self.width < self.width * self.height) by (nonlinear_arith)
                requires
                    x < self.width,
                    y < self.height,
                    self.width >= 1,
            ;
            assert(x + y * self.width < data_len);
        }
        self.screen_data[x + y * self.width]
    }

    pub fn set(&mut self, c: Color, x: usize, y: usize)
        requires
            old(self).inv(),
            x < old(self).width,
            y < old(self).height,
        ensures
            final(self).inv(),
            final(self).width == old(self).width,
            final(self).height == old(self).height,
            final(self).screen_data@ == old(self).screen_data@.update(
                x + y * old(self).width,
                c,
            ),
    {
        let data_len = self.screen_data.len();
        proof {
            assert(x + y * self.width < self.width * self.height) by (nonlinear_arith)
                requires
                    x < self.width,
                    y < self.height,
                    self.width >= 1,
            ;
            assert(x + y * self.width < data_len);
        }
        self.screen_data.set(x + y * self.width, c);
    }
}

} // verus!
