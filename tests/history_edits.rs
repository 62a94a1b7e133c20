use mergearea::history::EditKind;

#[test]
fn insert_delete_chunk() {
    let tests = [
        // Positions
        (
            // Text before edit
            &[
                "ab",
                "cd",
                "ef",
            ][..],
            // (row, col) position before edit
            0,
            // Chunk to be inserted
            &[
                "x", "y",
            ][..],
            // Text after edit
            &[
                "x",
                "yab",
                "cd",
                "ef",
            ][..],
        ),
        (
            &[
                "ab",
                "cd",
                "ef",
            ][..],
            1,
            &[
                "x", "y",
            ][..],
            &[
                "ax",
                "yb",
                "cd",
                "ef",
            ][..],
        ),
        (
            &[
                "ab",
                "cd",
                "ef",
            ][..],
            2,
            &[
                "x", "y",
            ][..],
            &[
                "abx",
                "y",
                "cd",
                "ef",
            ][..],
        ),
        (
            &[
                "ab",
                "cd",
                "ef",
            ][..],
            3,
            &[
                "x", "y",
            ][..],
            &[
                "ab",
                "x",
                "ycd",
                "ef",
            ][..],
        ),
        (
            &[
                "ab",
                "cd",
                "ef",
            ][..],
            4,
            &[
                "x", "y",
            ][..],
            &[
                "ab",
                "cx",
                "yd",
                "ef",
            ][..],
        ),
        (
            &[
                "ab",
                "cd",
                "ef",
            ][..],
            5,
            &[
                "x", "y",
            ][..],
            &[
                "ab",
                "cdx",
                "y",
                "ef",
            ][..],
        ),
        (
            &[
                "ab",
                "cd",
                "ef",
            ][..],
            6,
            &[
                "x", "y",
            ][..],
            &[
                "ab",
                "cd",
                "x",
                "yef",
            ][..],
        ),
        (
            &[
                "ab",
                "cd",
                "ef",
            ][..],
            7,
            &[
                "x", "y",
            ][..],
            &[
                "ab",
                "cd",
                "ex",
                "yf",
            ][..],
        ),
        (
            &[
                "ab",
                "cd",
                "ef",
            ][..],
            8,
            &[
                "x", "y",
            ][..],
            &[
                "ab",
                "cd",
                "efx",
                "y",
            ][..],
        ),
        // More than 2 lines
        (
            &[
                "ab",
                "cd",
                "ef",
            ][..],
            4,
            &[
                "x", "y", "z", "w"
            ][..],
            &[
                "ab",
                "cx",
                "y",
                "z",
                "wd",
                "ef",
            ][..],
        ),
        // Empty lines
        (
            &[
                "",
                "",
                "",
            ][..],
            0,
            &[
                "x", "y", "z"
            ][..],
            &[
                "x",
                "y",
                "z",
                "",
                "",
            ][..],
        ),
        (
            &[
                "",
                "",
                "",
            ][..],
            1,
            &[
                "x", "y", "z"
            ][..],
            &[
                "",
                "x",
                "y",
                "z",
                "",
            ][..],
        ),
        (
            &[
                "",
                "",
                "",
            ][..],
            2,
            &[
                "x", "y", "z"
            ][..],
            &[
                "",
                "",
                "x",
                "y",
                "z",
            ][..],
        ),
        // Empty buffer
        (
            &[][..],
            0,
            &[
                "x", "y", "z"
            ][..],
            &[
                "x",
                "y",
                "z",
            ][..],
        ),
        // Insert empty lines
        (
            &[
                "ab",
                "cd",
                "ef",
            ][..],
            0,
            &[
                "", "", "",
            ][..],
            &[
                "",
                "",
                "ab",
                "cd",
                "ef",
            ][..],
        ),
        (
            &[
                "ab",
                "cd",
                "ef",
            ][..],
            3,
            &[
                "", "", "",
            ][..],
            &[
                "ab",
                "",
                "",
                "cd",
                "ef",
            ][..],
        ),
        (
            &[
                "ab",
                "cd",
                "ef",
            ][..],
            4,
            &[
                "", "", "",
            ][..],
            &[
                "ab",
                "c",
                "",
                "d",
                "ef",
            ][..],
        ),
        (
            &[
                "ab",
                "cd",
                "ef",
            ][..],
            5,
            &[
                "", "", "",
            ][..],
            &[
                "ab",
                "cd",
                "",
                "",
                "ef",
            ][..],
        ),
        (
            &[
                "ab",
                "cd",
                "ef",
            ][..],
            8,
            &[
                "", "", "",
            ][..],
            &[
                "ab",
                "cd",
                "ef",
                "",
                "",
            ][..],
        ),
        // Multi-byte characters
        (
            &[
                "ğŸ¶ğŸ±",
                "ğŸ®ğŸ°",
                "ğŸ§ğŸ­",
            ][..],
            0,
            &[
                "ğŸ·", "ğŸ¼", "ğŸ´",
            ][..],
            &[
                "ğŸ·",
                "ğŸ¼",
                "ğŸ´ğŸ¶ğŸ±",
                "ğŸ®ğŸ°",
                "ğŸ§ğŸ­",
            ][..],
        ),
        // (
        //     &[
        //         "ğŸ¶ğŸ±",
        //         "ğŸ®ğŸ°",
        //         "ğŸ§ğŸ­",
        //     ][..],
        //     2,
        //     &[
        //         "ğŸ·", "ğŸ¼", "ğŸ´",
        //     ][..],
        //     &[
        //         "ğŸ¶ğŸ±ğŸ·",
        //         "ğŸ¼",
        //         "ğŸ´",
        //         "ğŸ®ğŸ°",
        //         "ğŸ§ğŸ­",
        //     ][..],
        // ),
        // (
        //     &[
        //         "ğŸ¶ğŸ±",
        //         "ğŸ®ğŸ°",
        //         "ğŸ§ğŸ­",
        //     ][..],
        //     3,
        //     &[
        //         "ğŸ·", "ğŸ¼", "ğŸ´",
        //     ][..],
        //     &[
        //         "ğŸ¶ğŸ±",
        //         "ğŸ·",
        //         "ğŸ¼",
        //         "ğŸ´ğŸ®ğŸ°",
        //         "ğŸ§ğŸ­",
        //     ][..],
        // ),
        // (
        //     &[
        //         "ğŸ¶ğŸ±",
        //         "ğŸ®ğŸ°",
        //         "ğŸ§ğŸ­",
        //     ][..],
        //     (1, 1),
        //     &[
        //         "ğŸ·", "ğŸ¼", "ğŸ´",
        //     ][..],
        //     &[
        //         "ğŸ¶ğŸ±",
        //         "ğŸ®ğŸ·",
        //         "ğŸ¼",
        //         "ğŸ´ğŸ°",
        //         "ğŸ§ğŸ­",
        //     ][..],
        // ),
        // (
        //     &[
        //         "ğŸ¶ğŸ±",
        //         "ğŸ®ğŸ°",
        //         "ğŸ§ğŸ­",
        //     ][..],
        //     (2, 2),
        //     &[
        //         "ğŸ·", "ğŸ¼", "ğŸ´",
        //     ][..],
        //     &[
        //         "ğŸ¶ğŸ±",
        //         "ğŸ®ğŸ°",
        //         "ğŸ§ğŸ­ğŸ·",
        //         "ğŸ¼",
        //         "ğŸ´",
        //     ][..],
        // ),
    ];

    for test in tests {
        let (before, pos, input, expected) = test;
        let mut lines: autosurgeon::Text = before.join("\n").into();
        let chunk = input.join("\n");

        let edit = EditKind::InsertStr(chunk.clone());
        edit.apply(&mut lines, pos);
        assert_eq!(lines.as_str(), expected.join("\n"), "{test:?}");

        let edit = EditKind::DeleteStr(chunk);
        edit.apply(&mut lines, pos);
        assert_eq!(lines.as_str(), before.join("\n"), "{test:?}");
    }
}
