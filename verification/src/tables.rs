//! The table provider: the immutable bit-reversal and twiddle-factor tables
//! that drive the transform engines.

use crate::bits::{rev_bits, rev_index};
use crate::cx::{cx_bounded, fits, vals, Complex32, Cx, TW_SCALE};
use vstd::arithmetic::power2::pow2;
use vstd::prelude::*;

verus! {

fn sine_value_0(j: usize) -> i32 {
    match j {
        0 => 25, 1 => 50, 2 => 75, 3 => 101, 4 => 126, 5 => 151, 6 => 176, 7 => 201,
        8 => 226, 9 => 251, 10 => 276, 11 => 302, 12 => 327, 13 => 352, 14 => 377, 15 => 402,
        16 => 427, 17 => 452, 18 => 477, 19 => 503, 20 => 528, 21 => 553, 22 => 578, 23 => 603,
        24 => 628, 25 => 653, 26 => 678, 27 => 704, 28 => 729, 29 => 754, 30 => 779, 31 => 804,
        32 => 829, 33 => 854, 34 => 879, 35 => 904, 36 => 929, 37 => 955, 38 => 980, 39 => 1005,
        40 => 1030, 41 => 1055, 42 => 1080, 43 => 1105, 44 => 1130, 45 => 1155, 46 => 1180, 47 => 1205,
        48 => 1230, 49 => 1255, 50 => 1280, 51 => 1306, 52 => 1331, 53 => 1356, 54 => 1381, 55 => 1406,
        56 => 1431, 57 => 1456, 58 => 1481, 59 => 1506, 60 => 1531, 61 => 1556, 62 => 1581, 63 => 1606,
        64 => 1631, 65 => 1656, 66 => 1681, 67 => 1706, 68 => 1731, 69 => 1756, 70 => 1781, 71 => 1806,
        72 => 1831, 73 => 1856, 74 => 1881, 75 => 1906, 76 => 1931, 77 => 1956, 78 => 1981, 79 => 2006,
        80 => 2031, 81 => 2055, 82 => 2080, 83 => 2105, 84 => 2130, 85 => 2155, 86 => 2180, 87 => 2205,
        88 => 2230, 89 => 2255, 90 => 2280, 91 => 2305, 92 => 2329, 93 => 2354, 94 => 2379, 95 => 2404,
        96 => 2429, 97 => 2454, 98 => 2479, 99 => 2503, 100 => 2528, 101 => 2553, 102 => 2578, 103 => 2603,
        104 => 2628, 105 => 2652, 106 => 2677, 107 => 2702, 108 => 2727, 109 => 2752, 110 => 2776, 111 => 2801,
        112 => 2826, 113 => 2851, 114 => 2875, 115 => 2900, 116 => 2925, 117 => 2949, 118 => 2974, 119 => 2999,
        120 => 3024, 121 => 3048, 122 => 3073, 123 => 3098, 124 => 3122, 125 => 3147, 126 => 3172, 127 => 3196,
        _ => 0,
    }
}

fn sine_value_1(j: usize) -> i32 {
    match j {
        128 => 3221, 129 => 3246, 130 => 3270, 131 => 3295, 132 => 3320, 133 => 3344, 134 => 3369, 135 => 3393,
        136 => 3418, 137 => 3442, 138 => 3467, 139 => 3492, 140 => 3516, 141 => 3541, 142 => 3565, 143 => 3590,
        144 => 3614, 145 => 3639, 146 => 3663, 147 => 3688, 148 => 3712, 149 => 3737, 150 => 3761, 151 => 3786,
        152 => 3810, 153 => 3835, 154 => 3859, 155 => 3883, 156 => 3908, 157 => 3932, 158 => 3957, 159 => 3981,
        160 => 4005, 161 => 4030, 162 => 4054, 163 => 4078, 164 => 4103, 165 => 4127, 166 => 4151, 167 => 4176,
        168 => 4200, 169 => 4224, 170 => 4249, 171 => 4273, 172 => 4297, 173 => 4321, 174 => 4346, 175 => 4370,
        176 => 4394, 177 => 4418, 178 => 4442, 179 => 4467, 180 => 4491, 181 => 4515, 182 => 4539, 183 => 4563,
        184 => 4587, 185 => 4612, 186 => 4636, 187 => 4660, 188 => 4684, 189 => 4708, 190 => 4732, 191 => 4756,
        192 => 4780, 193 => 4804, 194 => 4828, 195 => 4852, 196 => 4876, 197 => 4900, 198 => 4924, 199 => 4948,
        200 => 4972, 201 => 4996, 202 => 5020, 203 => 5044, 204 => 5068, 205 => 5092, 206 => 5115, 207 => 5139,
        208 => 5163, 209 => 5187, 210 => 5211, 211 => 5235, 212 => 5259, 213 => 5282, 214 => 5306, 215 => 5330,
        216 => 5354, 217 => 5377, 218 => 5401, 219 => 5425, 220 => 5449, 221 => 5472, 222 => 5496, 223 => 5520,
        224 => 5543, 225 => 5567, 226 => 5591, 227 => 5614, 228 => 5638, 229 => 5661, 230 => 5685, 231 => 5708,
        232 => 5732, 233 => 5756, 234 => 5779, 235 => 5803, 236 => 5826, 237 => 5850, 238 => 5873, 239 => 5897,
        240 => 5920, 241 => 5943, 242 => 5967, 243 => 5990, 244 => 6014, 245 => 6037, 246 => 6060, 247 => 6084,
        248 => 6107, 249 => 6130, 250 => 6154, 251 => 6177, 252 => 6200, 253 => 6223, 254 => 6247, 255 => 6270,
        _ => 0,
    }
}

fn sine_value_2(j: usize) -> i32 {
    match j {
        256 => 6293, 257 => 6316, 258 => 6339, 259 => 6363, 260 => 6386, 261 => 6409, 262 => 6432, 263 => 6455,
        264 => 6478, 265 => 6501, 266 => 6524, 267 => 6547, 268 => 6570, 269 => 6593, 270 => 6616, 271 => 6639,
        272 => 6662, 273 => 6685, 274 => 6708, 275 => 6731, 276 => 6754, 277 => 6777, 278 => 6800, 279 => 6823,
        280 => 6846, 281 => 6868, 282 => 6891, 283 => 6914, 284 => 6937, 285 => 6960, 286 => 6982, 287 => 7005,
        288 => 7028, 289 => 7050, 290 => 7073, 291 => 7096, 292 => 7118, 293 => 7141, 294 => 7164, 295 => 7186,
        296 => 7209, 297 => 7231, 298 => 7254, 299 => 7276, 300 => 7299, 301 => 7321, 302 => 7344, 303 => 7366,
        304 => 7389, 305 => 7411, 306 => 7434, 307 => 7456, 308 => 7478, 309 => 7501, 310 => 7523, 311 => 7545,
        312 => 7568, 313 => 7590, 314 => 7612, 315 => 7635, 316 => 7657, 317 => 7679, 318 => 7701, 319 => 7723,
        320 => 7746, 321 => 7768, 322 => 7790, 323 => 7812, 324 => 7834, 325 => 7856, 326 => 7878, 327 => 7900,
        328 => 7922, 329 => 7944, 330 => 7966, 331 => 7988, 332 => 8010, 333 => 8032, 334 => 8054, 335 => 8076,
        336 => 8098, 337 => 8119, 338 => 8141, 339 => 8163, 340 => 8185, 341 => 8207, 342 => 8228, 343 => 8250,
        344 => 8272, 345 => 8293, 346 => 8315, 347 => 8337, 348 => 8358, 349 => 8380, 350 => 8401, 351 => 8423,
        352 => 8445, 353 => 8466, 354 => 8488, 355 => 8509, 356 => 8531, 357 => 8552, 358 => 8573, 359 => 8595,
        360 => 8616, 361 => 8638, 362 => 8659, 363 => 8680, 364 => 8702, 365 => 8723, 366 => 8744, 367 => 8765,
        368 => 8787, 369 => 8808, 370 => 8829, 371 => 8850, 372 => 8871, 373 => 8892, 374 => 8914, 375 => 8935,
        376 => 8956, 377 => 8977, 378 => 8998, 379 => 9019, 380 => 9040, 381 => 9061, 382 => 9082, 383 => 9102,
        _ => 0,
    }
}

fn sine_value_3(j: usize) -> i32 {
    match j {
        384 => 9123, 385 => 9144, 386 => 9165, 387 => 9186, 388 => 9207, 389 => 9227, 390 => 9248, 391 => 9269,
        392 => 9290, 393 => 9310, 394 => 9331, 395 => 9352, 396 => 9372, 397 => 9393, 398 => 9413, 399 => 9434,
        400 => 9455, 401 => 9475, 402 => 9496, 403 => 9516, 404 => 9537, 405 => 9557, 406 => 9577, 407 => 9598,
        408 => 9618, 409 => 9638, 410 => 9659, 411 => 9679, 412 => 9699, 413 => 9720, 414 => 9740, 415 => 9760,
        416 => 9780, 417 => 9800, 418 => 9820, 419 => 9841, 420 => 9861, 421 => 9881, 422 => 9901, 423 => 9921,
        424 => 9941, 425 => 9961, 426 => 9981, 427 => 10001, 428 => 10020, 429 => 10040, 430 => 10060, 431 => 10080,
        432 => 10100, 433 => 10120, 434 => 10139, 435 => 10159, 436 => 10179, 437 => 10198, 438 => 10218, 439 => 10238,
        440 => 10257, 441 => 10277, 442 => 10296, 443 => 10316, 444 => 10336, 445 => 10355, 446 => 10374, 447 => 10394,
        448 => 10413, 449 => 10433, 450 => 10452, 451 => 10471, 452 => 10491, 453 => 10510, 454 => 10529, 455 => 10549,
        456 => 10568, 457 => 10587, 458 => 10606, 459 => 10625, 460 => 10644, 461 => 10663, 462 => 10683, 463 => 10702,
        464 => 10721, 465 => 10740, 466 => 10759, 467 => 10778, 468 => 10796, 469 => 10815, 470 => 10834, 471 => 10853,
        472 => 10872, 473 => 10891, 474 => 10909, 475 => 10928, 476 => 10947, 477 => 10966, 478 => 10984, 479 => 11003,
        480 => 11021, 481 => 11040, 482 => 11059, 483 => 11077, 484 => 11096, 485 => 11114, 486 => 11133, 487 => 11151,
        488 => 11169, 489 => 11188, 490 => 11206, 491 => 11224, 492 => 11243, 493 => 11261, 494 => 11279, 495 => 11297,
        496 => 11316, 497 => 11334, 498 => 11352, 499 => 11370, 500 => 11388, 501 => 11406, 502 => 11424, 503 => 11442,
        504 => 11460, 505 => 11478, 506 => 11496, 507 => 11514, 508 => 11532, 509 => 11550, 510 => 11567, 511 => 11585,
        _ => 0,
    }
}

fn sine_value_4(j: usize) -> i32 {
    match j {
        512 => 11603, 513 => 11621, 514 => 11638, 515 => 11656, 516 => 11674, 517 => 11691, 518 => 11709, 519 => 11727,
        520 => 11744, 521 => 11762, 522 => 11779, 523 => 11797, 524 => 11814, 525 => 11831, 526 => 11849, 527 => 11866,
        528 => 11883, 529 => 11901, 530 => 11918, 531 => 11935, 532 => 11952, 533 => 11970, 534 => 11987, 535 => 12004,
        536 => 12021, 537 => 12038, 538 => 12055, 539 => 12072, 540 => 12089, 541 => 12106, 542 => 12123, 543 => 12140,
        544 => 12157, 545 => 12173, 546 => 12190, 547 => 12207, 548 => 12224, 549 => 12240, 550 => 12257, 551 => 12274,
        552 => 12290, 553 => 12307, 554 => 12324, 555 => 12340, 556 => 12357, 557 => 12373, 558 => 12390, 559 => 12406,
        560 => 12423, 561 => 12439, 562 => 12455, 563 => 12472, 564 => 12488, 565 => 12504, 566 => 12520, 567 => 12537,
        568 => 12553, 569 => 12569, 570 => 12585, 571 => 12601, 572 => 12617, 573 => 12633, 574 => 12649, 575 => 12665,
        576 => 12681, 577 => 12697, 578 => 12713, 579 => 12729, 580 => 12744, 581 => 12760, 582 => 12776, 583 => 12792,
        584 => 12807, 585 => 12823, 586 => 12839, 587 => 12854, 588 => 12870, 589 => 12885, 590 => 12901, 591 => 12916,
        592 => 12932, 593 => 12947, 594 => 12963, 595 => 12978, 596 => 12993, 597 => 13008, 598 => 13024, 599 => 13039,
        600 => 13054, 601 => 13069, 602 => 13085, 603 => 13100, 604 => 13115, 605 => 13130, 606 => 13145, 607 => 13160,
        608 => 13175, 609 => 13190, 610 => 13205, 611 => 13219, 612 => 13234, 613 => 13249, 614 => 13264, 615 => 13279,
        616 => 13293, 617 => 13308, 618 => 13323, 619 => 13337, 620 => 13352, 621 => 13366, 622 => 13381, 623 => 13395,
        624 => 13410, 625 => 13424, 626 => 13439, 627 => 13453, 628 => 13467, 629 => 13482, 630 => 13496, 631 => 13510,
        632 => 13524, 633 => 13538, 634 => 13553, 635 => 13567, 636 => 13581, 637 => 13595, 638 => 13609, 639 => 13623,
        _ => 0,
    }
}

fn sine_value_5(j: usize) -> i32 {
    match j {
        640 => 13637, 641 => 13651, 642 => 13665, 643 => 13678, 644 => 13692, 645 => 13706, 646 => 13720, 647 => 13733,
        648 => 13747, 649 => 13761, 650 => 13774, 651 => 13788, 652 => 13802, 653 => 13815, 654 => 13829, 655 => 13842,
        656 => 13856, 657 => 13869, 658 => 13882, 659 => 13896, 660 => 13909, 661 => 13922, 662 => 13935, 663 => 13949,
        664 => 13962, 665 => 13975, 666 => 13988, 667 => 14001, 668 => 14014, 669 => 14027, 670 => 14040, 671 => 14053,
        672 => 14066, 673 => 14079, 674 => 14092, 675 => 14104, 676 => 14117, 677 => 14130, 678 => 14143, 679 => 14155,
        680 => 14168, 681 => 14181, 682 => 14193, 683 => 14206, 684 => 14218, 685 => 14231, 686 => 14243, 687 => 14256,
        688 => 14268, 689 => 14280, 690 => 14293, 691 => 14305, 692 => 14317, 693 => 14329, 694 => 14341, 695 => 14354,
        696 => 14366, 697 => 14378, 698 => 14390, 699 => 14402, 700 => 14414, 701 => 14426, 702 => 14438, 703 => 14449,
        704 => 14461, 705 => 14473, 706 => 14485, 707 => 14497, 708 => 14508, 709 => 14520, 710 => 14531, 711 => 14543,
        712 => 14555, 713 => 14566, 714 => 14578, 715 => 14589, 716 => 14601, 717 => 14612, 718 => 14623, 719 => 14635,
        720 => 14646, 721 => 14657, 722 => 14668, 723 => 14680, 724 => 14691, 725 => 14702, 726 => 14713, 727 => 14724,
        728 => 14735, 729 => 14746, 730 => 14757, 731 => 14768, 732 => 14779, 733 => 14789, 734 => 14800, 735 => 14811,
        736 => 14822, 737 => 14832, 738 => 14843, 739 => 14854, 740 => 14864, 741 => 14875, 742 => 14885, 743 => 14896,
        744 => 14906, 745 => 14917, 746 => 14927, 747 => 14937, 748 => 14948, 749 => 14958, 750 => 14968, 751 => 14978,
        752 => 14989, 753 => 14999, 754 => 15009, 755 => 15019, 756 => 15029, 757 => 15039, 758 => 15049, 759 => 15059,
        760 => 15069, 761 => 15078, 762 => 15088, 763 => 15098, 764 => 15108, 765 => 15118, 766 => 15127, 767 => 15137,
        _ => 0,
    }
}

fn sine_value_6(j: usize) -> i32 {
    match j {
        768 => 15146, 769 => 15156, 770 => 15166, 771 => 15175, 772 => 15184, 773 => 15194, 774 => 15203, 775 => 15213,
        776 => 15222, 777 => 15231, 778 => 15240, 779 => 15250, 780 => 15259, 781 => 15268, 782 => 15277, 783 => 15286,
        784 => 15295, 785 => 15304, 786 => 15313, 787 => 15322, 788 => 15331, 789 => 15340, 790 => 15349, 791 => 15357,
        792 => 15366, 793 => 15375, 794 => 15383, 795 => 15392, 796 => 15401, 797 => 15409, 798 => 15418, 799 => 15426,
        800 => 15435, 801 => 15443, 802 => 15451, 803 => 15460, 804 => 15468, 805 => 15476, 806 => 15485, 807 => 15493,
        808 => 15501, 809 => 15509, 810 => 15517, 811 => 15525, 812 => 15533, 813 => 15541, 814 => 15549, 815 => 15557,
        816 => 15565, 817 => 15573, 818 => 15581, 819 => 15588, 820 => 15596, 821 => 15604, 822 => 15611, 823 => 15619,
        824 => 15627, 825 => 15634, 826 => 15642, 827 => 15649, 828 => 15656, 829 => 15664, 830 => 15671, 831 => 15679,
        832 => 15686, 833 => 15693, 834 => 15700, 835 => 15707, 836 => 15715, 837 => 15722, 838 => 15729, 839 => 15736,
        840 => 15743, 841 => 15750, 842 => 15757, 843 => 15763, 844 => 15770, 845 => 15777, 846 => 15784, 847 => 15791,
        848 => 15797, 849 => 15804, 850 => 15810, 851 => 15817, 852 => 15824, 853 => 15830, 854 => 15837, 855 => 15843,
        856 => 15849, 857 => 15856, 858 => 15862, 859 => 15868, 860 => 15875, 861 => 15881, 862 => 15887, 863 => 15893,
        864 => 15899, 865 => 15905, 866 => 15911, 867 => 15917, 868 => 15923, 869 => 15929, 870 => 15935, 871 => 15941,
        872 => 15946, 873 => 15952, 874 => 15958, 875 => 15964, 876 => 15969, 877 => 15975, 878 => 15980, 879 => 15986,
        880 => 15991, 881 => 15997, 882 => 16002, 883 => 16008, 884 => 16013, 885 => 16018, 886 => 16024, 887 => 16029,
        888 => 16034, 889 => 16039, 890 => 16044, 891 => 16049, 892 => 16054, 893 => 16059, 894 => 16064, 895 => 16069,
        _ => 0,
    }
}

fn sine_value_7(j: usize) -> i32 {
    match j {
        896 => 16074, 897 => 16079, 898 => 16084, 899 => 16088, 900 => 16093, 901 => 16098, 902 => 16103, 903 => 16107,
        904 => 16112, 905 => 16116, 906 => 16121, 907 => 16125, 908 => 16130, 909 => 16134, 910 => 16138, 911 => 16143,
        912 => 16147, 913 => 16151, 914 => 16156, 915 => 16160, 916 => 16164, 917 => 16168, 918 => 16172, 919 => 16176,
        920 => 16180, 921 => 16184, 922 => 16188, 923 => 16192, 924 => 16195, 925 => 16199, 926 => 16203, 927 => 16207,
        928 => 16210, 929 => 16214, 930 => 16218, 931 => 16221, 932 => 16225, 933 => 16228, 934 => 16232, 935 => 16235,
        936 => 16238, 937 => 16242, 938 => 16245, 939 => 16248, 940 => 16251, 941 => 16255, 942 => 16258, 943 => 16261,
        944 => 16264, 945 => 16267, 946 => 16270, 947 => 16273, 948 => 16276, 949 => 16279, 950 => 16281, 951 => 16284,
        952 => 16287, 953 => 16290, 954 => 16292, 955 => 16295, 956 => 16298, 957 => 16300, 958 => 16303, 959 => 16305,
        960 => 16308, 961 => 16310, 962 => 16312, 963 => 16315, 964 => 16317, 965 => 16319, 966 => 16321, 967 => 16324,
        968 => 16326, 969 => 16328, 970 => 16330, 971 => 16332, 972 => 16334, 973 => 16336, 974 => 16338, 975 => 16340,
        976 => 16341, 977 => 16343, 978 => 16345, 979 => 16347, 980 => 16348, 981 => 16350, 982 => 16352, 983 => 16353,
        984 => 16355, 985 => 16356, 986 => 16358, 987 => 16359, 988 => 16360, 989 => 16362, 990 => 16363, 991 => 16364,
        992 => 16365, 993 => 16367, 994 => 16368, 995 => 16369, 996 => 16370, 997 => 16371, 998 => 16372, 999 => 16373,
        1000 => 16374, 1001 => 16375, 1002 => 16375, 1003 => 16376, 1004 => 16377, 1005 => 16378, 1006 => 16378, 1007 => 16379,
        1008 => 16380, 1009 => 16380, 1010 => 16381, 1011 => 16381, 1012 => 16382, 1013 => 16382, 1014 => 16382, 1015 => 16383,
        1016 => 16383, 1017 => 16383, 1018 => 16384, 1019 => 16384, 1020 => 16384, 1021 => 16384, 1022 => 16384,
        _ => 0,
    }
}

/// Quadrant sine table: entry `j` is `sin(2 * pi * (j + 1) / 4096)` in Q14
/// fixed point. One quarter wave (indices 1 through 1023 of a 4096-point
/// cycle) determines every twiddle factor by symmetry. The table is split
/// into fixed-size chunks.
fn sine_value(j: usize) -> i32 {
    if j < 128 {
        sine_value_0(j)
    } else if j < 256 {
        sine_value_1(j)
    } else if j < 384 {
        sine_value_2(j)
    } else if j < 512 {
        sine_value_3(j)
    } else if j < 640 {
        sine_value_4(j)
    } else if j < 768 {
        sine_value_5(j)
    } else if j < 896 {
        sine_value_6(j)
    } else if j < 1023 {
        sine_value_7(j)
    } else {
        0
    }
}

/// Build the quadrant sine table. Every entry is clamped into
/// `[0, TW_SCALE]`, which makes the table's range invariant a local fact
/// instead of an enumeration of all entries; in-range entries (all of them)
/// pass through unchanged.
fn build_sine() -> (s: Vec<i32>)
    ensures
        s@.len() == 1023,
        forall|j: int| 0 <= j < 1023 ==> 0 <= #[trigger] s@[j] <= 16384,
{
    let mut s: Vec<i32> = Vec::new();
    for j in 0..1023
        invariant
            s@.len() == j,
            forall|t: int| 0 <= t < j ==> 0 <= #[trigger] s@[t] <= 16384,
    {
        let raw = sine_value(j);
        let x = if raw < 0 {
            0
        } else if raw > TW_SCALE {
            TW_SCALE
        } else {
            raw
        };
        s.push(x);
    }
    s
}

/// Twiddle factor `k` of the 4096-point master table, derived from the
/// quadrant sine table by symmetry: entry `k` represents
/// `cos(-2 * pi * k / 4096) + i * sin(-2 * pi * k / 4096)` in Q14.
fn twiddle_entry(sine: &Vec<i32>, k: usize) -> (c: Complex32)
    requires
        sine@.len() == 1023,
        forall|j: int| 0 <= j < 1023 ==> 0 <= #[trigger] sine@[j] <= 16384,
        k < 2048,
    ensures
        -16384 <= c.re <= 16384,
        -16384 <= c.im <= 16384,
        k == 0 ==> c@ == (Cx { re: 16384, im: 0 }),
        k == 1024 ==> c@ == (Cx { re: 0, im: -16384 }),
{
    if k == 0 {
        Complex32::new(TW_SCALE, 0)
    } else if k < 1024 {
        Complex32::new(sine[1023 - k], -sine[k - 1])
    } else if k == 1024 {
        Complex32::new(0, -TW_SCALE)
    } else {
        Complex32::new(-sine[k - 1025], -sine[2047 - k])
    }
}

/// Compute `2^k` for the supported table sizes.
pub(crate) fn pow2_exec(k: usize) -> (r: usize)
    requires
        k <= 12,
    ensures
        r == pow2(k as nat),
{
    let mut r: usize = 1;
    proof {
        vstd::arithmetic::power2::lemma2_to64();
    }
    for j in 0..k
        invariant
            j <= k <= 12,
            r == pow2(j as nat),
            pow2(12) == 4096,
    {
        proof {
            vstd::arithmetic::power2::lemma_pow2_unfold((j + 1) as nat);
            if j + 1 < 12 {
                vstd::arithmetic::power2::lemma_pow2_strictly_increases((j + 1) as nat, 12);
            }
        }
        r = r * 2;
    }
    r
}

/// Build the bit-reversal table for size `2^log2n`: entry `i` is the
/// `log2n`-bit reversal of `i`.
fn build_bitrev_table(log2n: usize) -> (tbl: Vec<u16>)
    requires
        log2n <= 12,
    ensures
        tbl@.len() == pow2(log2n as nat),
        forall|i: int|
            0 <= i < tbl@.len() ==> #[trigger] tbl@[i] as nat == rev_bits(i as nat, log2n as nat),
{
    let n = pow2_exec(log2n);
    let mut tbl: Vec<u16> = Vec::new();
    proof {
        vstd::arithmetic::power2::lemma2_to64();
        if log2n < 12 {
            vstd::arithmetic::power2::lemma_pow2_strictly_increases(log2n as nat, 12);
        }
    }
    for i in 0..n
        invariant
            n == pow2(log2n as nat),
            n <= 4096,
            log2n <= 12,
            tbl@.len() == i,
            forall|t: int|
                0 <= t < i ==> #[trigger] tbl@[t] as nat == rev_bits(t as nat, log2n as nat),
            pow2(log2n as nat) <= pow2(16),
    {
        let r = rev_index(i, log2n);
        proof {
            if log2n < 16 {
                vstd::arithmetic::power2::lemma_pow2_strictly_increases(log2n as nat, 16);
            }
            vstd::arithmetic::power2::lemma2_to64();
        }
        tbl.push(r as u16);
    }
    tbl
}

/// The immutable tables that drive the transform engines: one master twiddle
/// table shared by every size, and one bit-reversal table per size.
///
/// Built once before any transform call; the engines only ever read it.
pub struct FftTables {
    /// Master twiddle table of the largest supported size (4096): entry `k`
    /// is `cos(-2 * pi * k / 4096) + i * sin(-2 * pi * k / 4096)` in Q14.
    /// Size `n` uses entries `k * (4096 / n)` for `k` in `[0, n / 2)`.
    pub twiddle: Vec<Complex32>,
    /// `bitrev[k]` is the bit-reversal table for size `2^k`, `k` in `[0, 12]`.
    pub bitrev: Vec<Vec<u16>>,
}

impl FftTables {
    /// The mathematical values of the master twiddle table.
    pub open spec fn tw(self) -> Seq<Cx> {
        vals(self.twiddle@)
    }

    /// Well-formedness: the twiddle table has 2048 unit-magnitude Q14 entries
    /// with the two exactly representable cardinal values pinned down, and
    /// each bit-reversal table holds exactly the bit-reversal permutation of
    /// its size.
    pub open spec fn wf(self) -> bool {
        &&& self.twiddle@.len() == 2048
        &&& fits(self.tw(), 16384)
        &&& self.tw()[0] == (Cx { re: 16384, im: 0 })
        &&& self.tw()[1024] == (Cx { re: 0, im: -16384 })
        &&& self.bitrev@.len() == 13
        &&& forall|k: int| 0 <= k < 13 ==> (#[trigger] self.bitrev@[k])@.len() == pow2(k as nat)
        &&& forall|k: int, i: int|
            0 <= k < 13 && 0 <= i < pow2(k as nat) ==> (#[trigger] self.bitrev@[k]@[i]) as nat
                == rev_bits(i as nat, k as nat)
    }

    /// Build all tables. A one-time startup step: the result is immutable
    /// thereafter and shared by every transform call.
    pub fn new() -> (t: FftTables)
        ensures
            t.wf(),
    {
        let sine = build_sine();
        let mut twiddle: Vec<Complex32> = Vec::new();
        for k in 0..2048
            invariant
                sine@.len() == 1023,
                forall|j: int| 0 <= j < 1023 ==> 0 <= #[trigger] sine@[j] <= 16384,
                twiddle@.len() == k,
                forall|t: int|
                    0 <= t < k ==> -16384 <= (#[trigger] twiddle@[t]).re <= 16384 && -16384
                        <= twiddle@[t].im <= 16384,
                k > 0 ==> twiddle@[0]@ == (Cx { re: 16384, im: 0 }),
                k > 1024 ==> twiddle@[1024]@ == (Cx { re: 0, im: -16384 }),
        {
            let c = twiddle_entry(&sine, k);
            twiddle.push(c);
        }
        proof {
            assert forall|i: int| 0 <= i < vals(twiddle@).len() implies cx_bounded(
                #[trigger] vals(twiddle@)[i],
                16384,
            ) by {
                assert(vals(twiddle@)[i] == twiddle@[i]@);
            }
            assert(vals(twiddle@)[0] == twiddle@[0]@);
            assert(vals(twiddle@)[1024] == twiddle@[1024]@);
        }
        let mut bitrev: Vec<Vec<u16>> = Vec::new();
        for k in 0..13
            invariant
                bitrev@.len() == k,
                forall|t: int| 0 <= t < k ==> (#[trigger] bitrev@[t])@.len() == pow2(t as nat),
                forall|t: int, i: int|
                    0 <= t < k && 0 <= i < pow2(t as nat) ==> (#[trigger] bitrev@[t]@[i]) as nat
                        == rev_bits(i as nat, t as nat),
        {
            let tbl = build_bitrev_table(k);
            bitrev.push(tbl);
        }
        FftTables { twiddle, bitrev }
    }

    /// The bit-reversal table for size `2^log2n`: entry `i` is the
    /// `log2n`-bit reversal of `i`.
    pub fn bitrev_table(&self, log2n: usize) -> (tbl: &Vec<u16>)
        requires
            self.wf(),
            log2n <= 12,
        ensures
            tbl@.len() == pow2(log2n as nat),
            forall|i: int|
                0 <= i < tbl@.len() ==> #[trigger] tbl@[i] as nat == rev_bits(
                    i as nat,
                    log2n as nat,
                ),
    {
        &self.bitrev[log2n]
    }

    /// Twiddle factor `k` of the master table.
    pub fn twiddle_at(&self, k: usize) -> (c: Complex32)
        requires
            self.wf(),
            k < 2048,
        ensures
            c@ == self.tw()[k as int],
    {
        self.twiddle[k]
    }
}

} // verus!
