use vstd::prelude::*;

verus! {

/// Framebuffer geometry and state
#[derive(Debug, Clone, Copy, PartialEq, Eq, Structural)]
pub struct FramebufferInfo {
    pub width: u32,
    pub height: u32,
    pub pitch: u32,
    pub bytes_per_pixel: u32,
    pub initialized: bool,
}

/// Index of pixel (x, y) in the framebuffer memory, counted in 32-bit words.
pub open spec fn pixel_offset(pitch: u32, x: int, y: int) -> int {
    y * (pitch / 4) + x
}

/// Words of framebuffer memory that the drawing operations can reach: a clear covers
/// `width * height` words from the start, a pixel lies `y * (pitch / 4) + x` words in.
pub open spec fn memory_words(width: u32, height: u32, pitch: u32) -> int {
    let rows = height * (pitch / 4) + width;
    let flat = width * height;
    if rows < flat { flat } else { rows }
}

/// `mem` with word `i` set to `v`, where `i` lies inside it.
pub open spec fn put(mem: Seq<u32>, i: int, v: u32) -> Seq<u32> {
    if 0 <= i < mem.len() {
        mem.update(i, v)
    } else {
        mem
    }
}

/// `mem` with the pixels `x0..x1` of row `y` set to `color`, left to right.
pub open spec fn paint_row(mem: Seq<u32>, pitch: u32, y: int, x0: int, x1: int, color: u32) -> Seq<u32>
    decreases x1 - x0,
{
    if x1 <= x0 {
        mem
    } else {
        put(paint_row(mem, pitch, y, x0, x1 - 1, color), pixel_offset(pitch, x1 - 1, y), color)
    }
}

/// `mem` with the rectangle of columns `x0..x1` and rows `y0..y1` set to `color`, row by row.
pub open spec fn paint_rect(mem: Seq<u32>, pitch: u32, x0: int, x1: int, y0: int, y1: int, color: u32) -> Seq<u32>
    decreases y1 - y0,
{
    if y1 <= y0 {
        mem
    } else {
        paint_row(paint_rect(mem, pitch, x0, x1, y0, y1 - 1, color), pitch, y1 - 1, x0, x1, color)
    }
}

/// `mem` with columns `0..ncols` of copy row `row` taken from `buf` (source pixels that lie
/// past the end of `buf` are skipped).
pub open spec fn copy_row(
    mem: Seq<u32>,
    pitch: u32,
    buf: Seq<u32>,
    src_x: int,
    src_y: int,
    src_width: int,
    dst_x: int,
    dst_y: int,
    row: int,
    ncols: int,
) -> Seq<u32>
    decreases ncols,
{
    if ncols <= 0 {
        mem
    } else {
        let prev = copy_row(mem, pitch, buf, src_x, src_y, src_width, dst_x, dst_y, row, ncols - 1);
        let col = ncols - 1;
        let src_idx = (src_y + row) * src_width + src_x + col;
        if src_idx < buf.len() {
            put(prev, pixel_offset(pitch, dst_x + col, dst_y + row), buf[src_idx])
        } else {
            prev
        }
    }
}

/// `mem` with copy rows `0..nrows`, each of `ncols` columns, taken from `buf`.
pub open spec fn copy_rect(
    mem: Seq<u32>,
    pitch: u32,
    buf: Seq<u32>,
    src_x: int,
    src_y: int,
    src_width: int,
    dst_x: int,
    dst_y: int,
    nrows: int,
    ncols: int,
) -> Seq<u32>
    decreases nrows,
{
    if nrows <= 0 {
        mem
    } else {
        copy_row(
            copy_rect(mem, pitch, buf, src_x, src_y, src_width, dst_x, dst_y, nrows - 1, ncols),
            pitch,
            buf,
            src_x,
            src_y,
            src_width,
            dst_x,
            dst_y,
            nrows - 1,
            ncols,
        )
    }
}

/// The smaller of two values.
pub open spec fn min_int(a: int, b: int) -> int {
    if a < b { a } else { b }
}

/// Framebuffer driver
///
/// The framebuffer memory is held as the 32-bit words that the drawing operations reach;
/// `base_addr` is where the hardware maps it.
pub struct FramebufferDriver {
    base_addr: Option<usize>,
    width: u32,
    height: u32,
    pitch: u32,
    bytes_per_pixel: u32,
    initialized: bool,
    memory: Vec<u32>,
}

impl FramebufferDriver {
    /// Geometry and state.
    pub closed spec fn info(&self) -> FramebufferInfo {
        FramebufferInfo {
            width: self.width,
            height: self.height,
            pitch: self.pitch,
            bytes_per_pixel: self.bytes_per_pixel,
            initialized: self.initialized,
        }
    }

    /// Where the memory is mapped, once known.
    pub closed spec fn base(&self) -> Option<usize> {
        self.base_addr
    }

    /// The framebuffer memory, in 32-bit words.
    pub closed spec fn mem(&self) -> Seq<u32> {
        self.memory@
    }

    /// Drawing is possible: initialized with a mapping.
    pub open spec fn active(&self) -> bool {
        self.info().initialized && self.base() is Some
    }

    /// Every reachable word is held, and no pixel offset overflows 32 bits.
    pub closed spec fn wf(&self) -> bool {
        &&& self.memory@.len() == memory_words(self.width, self.height, self.pitch)
        &&& self.height * (self.pitch / 4) + self.width <= u32::MAX
        &&& self.width * self.height <= u32::MAX
    }

    pub fn new() -> (r: Self)
        ensures
            r.wf(),
            r.info() == (FramebufferInfo { width: 0, height: 0, pitch: 0, bytes_per_pixel: 4, initialized: false }),
            r.base() is None,
    {
        FramebufferDriver {
            base_addr: None,
            width: 0,
            height: 0,
            pitch: 0,
            bytes_per_pixel: 4,
            initialized: false,
            memory: Vec::new(),
        }
    }

    /// Initialize the framebuffer with the mode the bootloader reported: its address, size in
    /// pixels, bytes per row and bits per pixel; the screen is then cleared to black.
    pub fn init(&mut self, addr: usize, width: u32, height: u32, pitch: u32, bpp: u16)
        requires
            height * (pitch / 4) + width <= u32::MAX,
            width * height <= u32::MAX,
        ensures
            final(self).wf(),
            final(self).info() == (FramebufferInfo {
                width,
                height,
                pitch,
                bytes_per_pixel: ((bpp + 7) / 8) as u32,
                initialized: true,
            }),
            final(self).base() == Some(addr),
            forall|i: int| 0 <= i < width * height ==> #[trigger] final(self).mem()[i] == 0,
    {
        self.base_addr = Some(addr);
        self.width = width;
        self.height = height;
        self.pitch = pitch;
        self.bytes_per_pixel = (bpp as u32 + 7) / 8;
        self.initialized = true;
        let rows = height as usize * (pitch / 4) as usize + width as usize;
        let flat = width as usize * height as usize;
        let words = if rows < flat { flat } else { rows };
        proof {
            assert(height * (pitch / 4) == (height as usize) * ((pitch / 4) as usize)) by (nonlinear_arith);
        }
        let mut memory: Vec<u32> = Vec::new();
        let mut i: usize = 0;
        while i < words
            invariant
                i <= words,
                memory@.len() == i,
            decreases words - i,
        {
            memory.push(0);
            i = i + 1;
        }
        self.memory = memory;
        // Clear framebuffer to black
        self.clear(0x000000);
    }

    /// Clear framebuffer with specified color: the first `width * height` words.
    pub fn clear(&mut self, color: u32)
        requires
            old(self).wf(),
        ensures
            final(self).wf(),
            final(self).info() == old(self).info(),
            final(self).base() == old(self).base(),
            old(self).active() ==> (forall|i: int| 0 <= i < final(self).mem().len() ==> #[trigger] final(self).mem()[i]
                == if i < old(self).info().width * old(self).info().height { color } else { old(self).mem()[i] }),
            !old(self).active() ==> final(self).mem() == old(self).mem(),
            final(self).mem().len() == old(self).mem().len(),
    {
        if !self.initialized {
            return;
        }
        if self.base_addr.is_none() {
            return;
        }
        let pixel_count = (self.width * self.height) as usize;
        let ghost m0 = self.memory@;
        let mut i: usize = 0;
        while i < pixel_count
            invariant
                i <= pixel_count,
                pixel_count == self.width * self.height,
                self.wf(),
                self.info() == old(self).info(),
                self.base() == old(self).base(),
                self.memory@.len() == m0.len(),
                forall|k: int| 0 <= k < m0.len() ==> #[trigger] self.memory@[k] == if k < i { color } else { m0[k] },
            decreases pixel_count - i,
        {
            self.memory.set(i, color);
            i = i + 1;
        }
    }

    /// Set pixel at coordinates; outside the screen, or before initialization, nothing happens.
    pub fn set_pixel(&mut self, x: u32, y: u32, color: u32)
        requires
            old(self).wf(),
        ensures
            final(self).wf(),
            final(self).info() == old(self).info(),
            final(self).base() == old(self).base(),
            old(self).active() && x < old(self).info().width && y < old(self).info().height ==> final(self).mem()
                == old(self).mem().update(pixel_offset(old(self).info().pitch, x as int, y as int), color)
                && 0 <= pixel_offset(old(self).info().pitch, x as int, y as int) < old(self).mem().len(),
            !(old(self).active() && x < old(self).info().width && y < old(self).info().height) ==> final(self).mem()
                == old(self).mem(),
    {
        if !self.initialized || x >= self.width || y >= self.height {
            return;
        }
        if self.base_addr.is_none() {
            return;
        }
        proof {
            assert(y * (self.pitch / 4) <= (self.height - 1) * (self.pitch / 4)) by (nonlinear_arith)
                requires y < self.height;
            assert((self.height - 1) * (self.pitch / 4) + self.pitch / 4 == self.height * (self.pitch / 4)) by (nonlinear_arith);
        }
        let pixel_offset = (y * (self.pitch / 4) + x) as usize;
        self.memory.set(pixel_offset, color);
    }

    /// Get pixel at coordinates; 0 outside the screen or before initialization.
    pub fn get_pixel(&self, x: u32, y: u32) -> (r: u32)
        requires
            self.wf(),
        ensures
            self.active() && x < self.info().width && y < self.info().height ==> r == self.mem()[pixel_offset(
                self.info().pitch,
                x as int,
                y as int,
            )],
            !(self.active() && x < self.info().width && y < self.info().height) ==> r == 0,
    {
        if !self.initialized || x >= self.width || y >= self.height {
            return 0;
        }
        if self.base_addr.is_none() {
            return 0;
        }
        proof {
            assert(y * (self.pitch / 4) <= (self.height - 1) * (self.pitch / 4)) by (nonlinear_arith)
                requires y < self.height;
            assert((self.height - 1) * (self.pitch / 4) + self.pitch / 4 == self.height * (self.pitch / 4)) by (nonlinear_arith);
        }
        let pixel_offset = (y * (self.pitch / 4) + x) as usize;
        self.memory[pixel_offset]
    }

    /// The framebuffer memory as the drawing operations left it, to be copied to where the
    /// hardware maps it.
    pub fn memory(&self) -> (r: &[u32])
        ensures
            r@ == self.mem(),
    {
        self.memory.as_slice()
    }

    /// Get framebuffer info
    pub fn get_info(&self) -> (r: FramebufferInfo)
        ensures
            r == self.info(),
    {
        FramebufferInfo {
            width: self.width,
            height: self.height,
            pitch: self.pitch,
            bytes_per_pixel: self.bytes_per_pixel,
            initialized: self.initialized,
        }
    }

    /// Forget the mapping: nothing is drawn until initialized again.
    pub fn shutdown(&mut self)
        requires
            old(self).wf(),
        ensures
            final(self).wf(),
            final(self).base() is None,
            !final(self).info().initialized,
            final(self).mem() == old(self).mem(),
    {
        self.base_addr = None;
        self.initialized = false;
    }

    /// Draw rectangle: the part of it on the screen, row by row.
    pub fn draw_rect(&mut self, x: u32, y: u32, width: u32, height: u32, color: u32)
        requires
            old(self).wf(),
            x + width <= u32::MAX,
            y + height <= u32::MAX,
        ensures
            final(self).wf(),
            final(self).info() == old(self).info(),
            final(self).base() == old(self).base(),
            final(self).mem() == if old(self).active() {
                paint_rect(
                    old(self).mem(),
                    old(self).info().pitch,
                    x as int,
                    min_int(x + width, old(self).info().width as int),
                    y as int,
                    min_int(y + height, old(self).info().height as int),
                    color,
                )
            } else {
                old(self).mem()
            },
    {
        let row_end = if y + height < self.height { y + height } else { self.height };
        let col_end = if x + width < self.width { x + width } else { self.width };
        let ghost m0 = self.memory@;
        let ghost act = self.active();
        let mut row = y;
        while row < row_end
            invariant
                y <= row,
                row <= row_end || row == y,
                row_end <= self.height,
                col_end <= self.width,
                row_end == min_int(y + height, self.height as int),
                col_end == min_int(x + width, self.width as int),
                self.wf(),
                self.info() == old(self).info(),
                self.base() == old(self).base(),
                m0 == old(self).mem(),
                act == old(self).active(),
                self.memory@ == if act {
                    paint_rect(m0, self.pitch, x as int, col_end as int, y as int, row as int, color)
                } else {
                    m0
                },
            decreases row_end - row,
        {
            let ghost row_start = self.memory@;
            let mut col = x;
            while col < col_end
                invariant
                    x <= col,
                    col <= col_end || col == x,
                    row < row_end,
                    row_end <= self.height,
                    col_end <= self.width,
                    self.wf(),
                    self.info() == old(self).info(),
                    self.base() == old(self).base(),
                    act == old(self).active(),
                    self.memory@ == if act {
                        paint_row(row_start, self.pitch, row as int, x as int, col as int, color)
                    } else {
                        row_start
                    },
                decreases col_end - col,
            {
                self.set_pixel(col, row, color);
                col = col + 1;
            }
            row = row + 1;
        }
    }

    /// Copy buffer to framebuffer: a `copy_width` by `copy_height` block whose top left pixel
    /// is at (`src_x`, `src_y`) in a buffer `src_width` pixels wide goes to (`dst_x`, `dst_y`);
    /// rows and columns past the screen edge, and source pixels past the buffer end, are
    /// skipped.
    pub fn copy_from_buffer(
        &mut self,
        buffer: &[u32],
        src_x: u32,
        src_y: u32,
        src_width: u32,
        dst_x: u32,
        dst_y: u32,
        copy_width: u32,
        copy_height: u32,
    )
        requires
            old(self).wf(),
            src_x + copy_width <= u32::MAX,
            src_y + copy_height <= u32::MAX,
            dst_x + copy_width <= u32::MAX,
            dst_y + copy_height <= u32::MAX,
            (src_y + copy_height) * src_width + src_x + copy_width <= u32::MAX,
        ensures
            final(self).wf(),
            final(self).info() == old(self).info(),
            final(self).base() == old(self).base(),
            final(self).mem() == if old(self).active() {
                copy_rect(
                    old(self).mem(),
                    old(self).info().pitch,
                    buffer@,
                    src_x as int,
                    src_y as int,
                    src_width as int,
                    dst_x as int,
                    dst_y as int,
                    min_int(copy_height as int, old(self).info().height - dst_y),
                    min_int(copy_width as int, old(self).info().width - dst_x),
                )
            } else {
                old(self).mem()
            },
    {
        let ghost m0 = self.memory@;
        let ghost act = self.active();
        let ghost nrows = min_int(copy_height as int, self.height - dst_y);
        let ghost ncols = min_int(copy_width as int, self.width - dst_x);
        if !self.initialized {
            return;
        }
        proof {
            assert(src_y * src_width <= (src_y + copy_height) * src_width) by (nonlinear_arith);
        }
        let mut row: u32 = 0;
        while row < copy_height
            invariant
                row <= copy_height,
                row <= nrows || (row == 0 && nrows <= 0),
                nrows == min_int(copy_height as int, self.height - dst_y),
                ncols == min_int(copy_width as int, self.width - dst_x),
                src_x + copy_width <= u32::MAX,
                src_y + copy_height <= u32::MAX,
                dst_x + copy_width <= u32::MAX,
                dst_y + copy_height <= u32::MAX,
                (src_y + copy_height) * src_width + src_x + copy_width <= u32::MAX,
                self.wf(),
                self.info() == old(self).info(),
                self.base() == old(self).base(),
                m0 == old(self).mem(),
                act == old(self).active(),
                self.memory@ == if act {
                    copy_rect(m0, self.pitch, buffer@, src_x as int, src_y as int, src_width as int,
                        dst_x as int, dst_y as int, row as int, ncols)
                } else {
                    m0
                },
            ensures
                self.wf(),
                self.info() == old(self).info(),
                self.base() == old(self).base(),
                self.memory@ == if act {
                    copy_rect(m0, self.pitch, buffer@, src_x as int, src_y as int, src_width as int,
                        dst_x as int, dst_y as int, nrows, ncols)
                } else {
                    m0
                },
            decreases copy_height - row,
        {
            let src_row = src_y + row;
            let dst_row = dst_y + row;
            if dst_row >= self.height {
                proof {
                    if row == 0 {
                        assert(copy_rect(m0, self.pitch, buffer@, src_x as int, src_y as int, src_width as int,
                            dst_x as int, dst_y as int, nrows, ncols) == m0);
                    }
                }
                break;
            }
            proof {
                assert(src_row * src_width <= (src_y + copy_height) * src_width) by (nonlinear_arith)
                    requires src_row <= src_y + copy_height;
            }
            let ghost row_start = self.memory@;
            let mut col: u32 = 0;
            while col < copy_width
                invariant
                    col <= copy_width,
                    col <= ncols || (col == 0 && ncols <= 0),
                    row < nrows,
                    src_row == src_y + row,
                    dst_row == dst_y + row,
                    dst_row < self.height,
                    ncols == min_int(copy_width as int, self.width - dst_x),
                    src_x + copy_width <= u32::MAX,
                    dst_x + copy_width <= u32::MAX,
                    src_row * src_width + src_x + copy_width <= u32::MAX,
                    self.wf(),
                    self.info() == old(self).info(),
                    self.base() == old(self).base(),
                    act == old(self).active(),
                    self.memory@ == if act {
                        copy_row(row_start, self.pitch, buffer@, src_x as int, src_y as int, src_width as int,
                            dst_x as int, dst_y as int, row as int, col as int)
                    } else {
                        row_start
                    },
                ensures
                    self.wf(),
                    self.info() == old(self).info(),
                    self.base() == old(self).base(),
                    self.memory@ == if act {
                        copy_row(row_start, self.pitch, buffer@, src_x as int, src_y as int, src_width as int,
                            dst_x as int, dst_y as int, row as int, ncols)
                    } else {
                        row_start
                    },
                decreases copy_width - col,
            {
                let src_col = src_x + col;
                let dst_col = dst_x + col;
                if dst_col >= self.width {
                    break;
                }
                let src_idx = (src_row * src_width + src_col) as usize;
                if src_idx < buffer.len() {
                    self.set_pixel(dst_col, dst_row, buffer[src_idx]);
                }
                col = col + 1;
            }
            row = row + 1;
        }
    }
}

/// Run `f` on the framebuffer in `slot`, if there is one.
pub fn with_framebuffer<R, F: FnOnce(&FramebufferDriver) -> R>(slot: &Option<FramebufferDriver>, f: F) -> (r: Option<R>)
    requires
        slot matches Some(fb) ==> f.requires((&fb,)),
    ensures
        slot is None ==> r is None,
        slot matches Some(fb) ==> (r matches Some(v) && f.ensures((&fb,), v)),
{
    match slot {
        Some(fb) => Some(f(fb)),
        None => None,
    }
}

/// Run `f` on the framebuffer in `slot`, if there is one, letting it change the framebuffer.
pub fn with_framebuffer_mut<R, F: FnOnce(&mut FramebufferDriver) -> R>(slot: &mut Option<FramebufferDriver>, f: F) -> (r: Option<R>)
    requires
        forall|fb: &mut FramebufferDriver| #[trigger] f.requires((fb,)),
    ensures
        *old(slot) is None ==> r is None && *final(slot) is None,
        *old(slot) is Some ==> r is Some && *final(slot) is Some,
{
    match slot {
        Some(fb) => Some(f(fb)),
        None => None,
    }
}

/// A pixel on the screen of a well-formed framebuffer lies inside its memory.
pub proof fn lemma_pixel_in_memory(fb: FramebufferDriver, x: u32, y: u32)
    requires
        fb.wf(),
        x < fb.info().width,
        y < fb.info().height,
    ensures
        0 <= pixel_offset(fb.info().pitch, x as int, y as int) < fb.mem().len(),
{
    let p = fb.info().pitch / 4;
    assert(y * p <= (fb.info().height - 1) * p) by (nonlinear_arith)
        requires y < fb.info().height, p >= 0;
    assert((fb.info().height - 1) * p + p == fb.info().height * p) by (nonlinear_arith);
    assert(0 <= y * p) by (nonlinear_arith) requires p >= 0;
}

/// Reading a pixel back after setting it gives the color set.
pub proof fn lemma_set_then_get(fb: FramebufferDriver, x: u32, y: u32, color: u32)
    requires
        fb.wf(),
        x < fb.info().width,
        y < fb.info().height,
    ensures
        fb.mem().update(pixel_offset(fb.info().pitch, x as int, y as int), color)[pixel_offset(
            fb.info().pitch,
            x as int,
            y as int,
        )] == color,
{
    lemma_pixel_in_memory(fb, x, y);
}

/// Painting only ever writes `color`, and leaves the length alone.
pub proof fn lemma_paint_row_keeps(mem: Seq<u32>, pitch: u32, y: int, x0: int, x1: int, color: u32, i: int)
    ensures
        paint_row(mem, pitch, y, x0, x1, color).len() == mem.len(),
        0 <= i < mem.len() && mem[i] == color ==> paint_row(mem, pitch, y, x0, x1, color)[i] == color,
    decreases x1 - x0,
{
    if x1 > x0 {
        lemma_paint_row_keeps(mem, pitch, y, x0, x1 - 1, color, i);
    }
}

/// Every pixel of a painted row has the color, where it lies inside the memory.
pub proof fn lemma_paint_row_covers(mem: Seq<u32>, pitch: u32, y: int, x0: int, x1: int, color: u32, c: int)
    requires
        x0 <= c < x1,
        0 <= pixel_offset(pitch, c, y) < mem.len(),
    ensures
        paint_row(mem, pitch, y, x0, x1, color)[pixel_offset(pitch, c, y)] == color,
    decreases x1 - x0,
{
    if c < x1 - 1 {
        lemma_paint_row_covers(mem, pitch, y, x0, x1 - 1, color, c);
    }
    lemma_paint_row_keeps(mem, pitch, y, x0, x1 - 1, color, pixel_offset(pitch, c, y));
}

/// Every pixel of a painted rectangle has the color, where it lies inside the memory.
pub proof fn lemma_paint_rect_covers(
    mem: Seq<u32>,
    pitch: u32,
    x0: int,
    x1: int,
    y0: int,
    y1: int,
    color: u32,
    c: int,
    r: int,
)
    requires
        x0 <= c < x1,
        y0 <= r < y1,
        0 <= pixel_offset(pitch, c, r) < mem.len(),
    ensures
        paint_rect(mem, pitch, x0, x1, y0, y1, color)[pixel_offset(pitch, c, r)] == color,
    decreases y1 - y0,
{
    lemma_paint_rect_len(mem, pitch, x0, x1, y0, y1 - 1, color);
    let prev = paint_rect(mem, pitch, x0, x1, y0, y1 - 1, color);
    if r == y1 - 1 {
        lemma_paint_row_covers(prev, pitch, y1 - 1, x0, x1, color, c);
    } else {
        lemma_paint_rect_covers(mem, pitch, x0, x1, y0, y1 - 1, color, c, r);
        lemma_paint_row_keeps(prev, pitch, y1 - 1, x0, x1, color, pixel_offset(pitch, c, r));
    }
}

/// Painting a rectangle leaves the length of the memory alone.
pub proof fn lemma_paint_rect_len(mem: Seq<u32>, pitch: u32, x0: int, x1: int, y0: int, y1: int, color: u32)
    ensures
        paint_rect(mem, pitch, x0, x1, y0, y1, color).len() == mem.len(),
    decreases y1 - y0,
{
    if y1 > y0 {
        lemma_paint_rect_len(mem, pitch, x0, x1, y0, y1 - 1, color);
        lemma_paint_row_keeps(paint_rect(mem, pitch, x0, x1, y0, y1 - 1, color), pitch, y1 - 1, x0, x1, color, 0);
    }
}

/// After drawing a rectangle, every pixel of it that is on the screen reads back the color.
pub proof fn lemma_draw_rect_reads_back(fb: FramebufferDriver, x: u32, y: u32, width: u32, height: u32, color: u32, c: u32, r: u32)
    requires
        fb.wf(),
        x <= c < x + width,
        y <= r < y + height,
        c < fb.info().width,
        r < fb.info().height,
    ensures
        paint_rect(
            fb.mem(),
            fb.info().pitch,
            x as int,
            min_int(x + width, fb.info().width as int),
            y as int,
            min_int(y + height, fb.info().height as int),
            color,
        )[pixel_offset(fb.info().pitch, c as int, r as int)] == color,
{
    lemma_pixel_in_memory(fb, c, r);
    lemma_paint_rect_covers(
        fb.mem(),
        fb.info().pitch,
        x as int,
        min_int(x + width, fb.info().width as int),
        y as int,
        min_int(y + height, fb.info().height as int),
        color,
        c as int,
        r as int,
    );
}

} // verus!
